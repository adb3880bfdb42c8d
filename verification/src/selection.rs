//! The selection and filter state machine: the scanned collection, the
//! active search text, the search-mode flag, and a cursor into the
//! filtered view.

use vstd::prelude::*;
use crate::project::Project;
use crate::text::{contains_spec, contains_substring, lower_of, lowercase};

verus! {

/// The project named `name` stays visible under `filter`: an empty
/// filter keeps everything; otherwise the lowercased name must contain
/// the lowercased filter.
pub open spec fn keep_spec(name: Seq<char>, filter: Seq<char>) -> bool {
    filter.len() == 0 || contains_spec(lower_of(name), lower_of(filter))
}

/// The visibility of each name under `filter`, position by position.
pub open spec fn keep_mask(names: Seq<Seq<char>>, filter: Seq<char>) -> Seq<bool> {
    names.map_values(|nm: Seq<char>| keep_spec(nm, filter))
}

/// The positions below `n` whose mask entry is true, in increasing
/// order.
pub open spec fn filtered_of(keeps: Seq<bool>, n: int) -> Seq<int>
    decreases n,
{
    if n <= 0 {
        Seq::empty()
    } else if keeps[n - 1] {
        filtered_of(keeps, n - 1).push(n - 1)
    } else {
        filtered_of(keeps, n - 1)
    }
}

/// Law: when every entry of the mask is kept, the filtered view is all
/// positions in their original order.
pub proof fn lemma_filtered_all_kept(keeps: Seq<bool>, n: int)
    requires
        0 <= n,
        forall|i: int| 0 <= i < n ==> keeps[i],
    ensures
        filtered_of(keeps, n) == Seq::new(n as nat, |i: int| i),
    decreases n,
{
    if n > 0 {
        lemma_filtered_all_kept(keeps, n - 1);
        assert(filtered_of(keeps, n) =~= Seq::new(n as nat, |i: int| i));
    } else {
        assert(filtered_of(keeps, n) =~= Seq::new(n as nat, |i: int| i));
    }
}

/// Every position the filtered view holds lies below `n`.
pub proof fn lemma_filtered_range(keeps: Seq<bool>, n: int)
    ensures
        forall|k: int|
            0 <= k < filtered_of(keeps, n).len() ==> 0 <= #[trigger] filtered_of(keeps, n)[k] < n,
    decreases n,
{
    if n > 0 {
        lemma_filtered_range(keeps, n - 1);
        assert forall|k: int| 0 <= k < filtered_of(keeps, n).len() implies 0 <= #[trigger] filtered_of(
            keeps,
            n,
        )[k] < n by {
            if !(keeps[n - 1] && k == filtered_of(keeps, n - 1).len()) {
                assert(filtered_of(keeps, n)[k] == filtered_of(keeps, n - 1)[k]);
            }
        }
    }
}

/// Law: when exactly one position of the mask is kept, the filtered view
/// is exactly that position.
pub proof fn lemma_filtered_unique_match(keeps: Seq<bool>, n: int, i: int)
    requires
        0 <= i < n,
        keeps[i],
        forall|j: int| 0 <= j < n && j != i ==> !keeps[j],
    ensures
        filtered_of(keeps, n) == seq![i],
    decreases n,
{
    if n - 1 == i {
        lemma_filtered_none(keeps, n - 1, i);
        assert(filtered_of(keeps, n) =~= seq![i]);
    } else {
        lemma_filtered_unique_match(keeps, n - 1, i);
    }
}

/// When no position below `n` other than `exempt` is kept and `exempt`
/// does not lie below `n`, the filtered view is empty.
proof fn lemma_filtered_none(keeps: Seq<bool>, n: int, exempt: int)
    requires
        n <= exempt,
        forall|j: int| 0 <= j < n && j != exempt ==> !keeps[j],
    ensures
        filtered_of(keeps, n) == Seq::<int>::empty(),
    decreases n,
{
    if n > 0 {
        lemma_filtered_none(keeps, n - 1, exempt);
        assert(filtered_of(keeps, n) =~= Seq::<int>::empty());
    } else {
        assert(filtered_of(keeps, n) =~= Seq::<int>::empty());
    }
}

/// Law: with an empty filter the filtered view holds every index of the
/// backing collection, in collection order.
pub proof fn lemma_filtered_view_unfiltered(m: SelectionModel)
    requires
        m.filter@.len() == 0,
    ensures
        m.filtered_spec() == Seq::new(m.projects@.len(), |i: int| i),
{
    lemma_filtered_all_kept(keep_mask(m.names(), m.filter@), m.projects@.len() as int);
}

/// Law: when exactly one project's name passes the filter, the filtered
/// view is exactly that project's index.
pub proof fn lemma_filtered_view_unique_match(m: SelectionModel, i: int)
    requires
        0 <= i < m.projects@.len(),
        keep_spec(m.names()[i], m.filter@),
        forall|j: int|
            0 <= j < m.projects@.len() && j != i ==> !keep_spec(
                #[trigger] m.names()[j],
                m.filter@,
            ),
    ensures
        m.filtered_spec() == seq![i],
{
    lemma_filtered_unique_match(keep_mask(m.names(), m.filter@), m.projects@.len() as int, i);
}

/// Where the cursor lands after the filtered view changes: its first
/// element, or nowhere when the view is empty.
pub open spec fn cursor_reset_spec(flen: int) -> Option<usize> {
    if flen == 0 {
        Option::None
    } else {
        Option::Some(0usize)
    }
}

/// Where the cursor lands after a move by `delta`: nowhere on an empty
/// view; otherwise one step forward clamped to the last element, or one
/// step backward clamped to the first.
pub open spec fn move_cursor_spec(flen: int, cursor: Option<usize>, delta: i32) -> Option<usize> {
    if flen == 0 {
        Option::None
    } else {
        let cur = match cursor {
            Option::Some(c) => c as int,
            Option::None => 0,
        };
        if delta > 0 {
            Option::Some(
                (if cur + 1 < flen {
                    cur + 1
                } else {
                    flen - 1
                }) as usize,
            )
        } else {
            Option::Some(
                (if cur > 0 {
                    cur - 1
                } else {
                    0
                }) as usize,
            )
        }
    }
}

/// The running session's mutable view state: the scanned collection, the
/// active filter text, the search-mode flag, and the cursor into the
/// filtered view.
pub struct SelectionModel {
    /// The scanned collection, never mutated after construction.
    pub projects: Vec<Project>,
    /// The active search text; empty means no filtering.
    pub filter: String,
    /// True while character input grows the filter text.
    pub searching: bool,
    /// Index into the filtered view; absent exactly when that view is
    /// empty.
    pub cursor: Option<usize>,
}

impl SelectionModel {
    /// The collection's display names, in collection order.
    pub open spec fn names(self) -> Seq<Seq<char>> {
        self.projects@.map_values(|p: Project| p.name@)
    }

    /// The filtered view: the positions of the projects that the active
    /// filter keeps, in collection order.
    pub open spec fn filtered_spec(self) -> Seq<int> {
        filtered_of(keep_mask(self.names(), self.filter@), self.projects@.len() as int)
    }

    /// The cursor is a valid index into the filtered view, or absent
    /// exactly when that view is empty.
    pub open spec fn wf(self) -> bool {
        match self.cursor {
            Option::None => self.filtered_spec().len() == 0,
            Option::Some(c) => c < self.filtered_spec().len(),
        }
    }

    /// The backing-collection position the cursor stands on, if any.
    pub open spec fn selected_index(self) -> Option<int> {
        match self.cursor {
            Option::None => Option::None,
            Option::Some(c) => if c < self.filtered_spec().len() {
                Option::Some(self.filtered_spec()[c as int])
            } else {
                Option::None
            },
        }
    }

    /// Builds the session state over a scanned collection: no filter,
    /// browsing, cursor on the first project when there is one.
    pub fn new(projects: Vec<Project>) -> (r: SelectionModel)
        ensures
            r.projects@ == projects@,
            r.filter@.len() == 0,
            !r.searching,
            r.cursor == cursor_reset_spec(projects@.len() as int),
            r.wf(),
    {
        let empty = projects.is_empty();
        let r = SelectionModel {
            projects,
            filter: String::new(),
            searching: false,
            cursor: if empty {
                Option::None
            } else {
                Option::Some(0usize)
            },
        };
        proof {
            lemma_filtered_all_kept(
                keep_mask(r.names(), r.filter@),
                r.projects@.len() as int,
            );
        }
        r
    }

    /// The filtered view as indices into the backing collection: every
    /// project whose name, case-insensitively, contains the filter text
    /// (every project when the filter is empty), in collection order.
    pub fn filtered_indices(&self) -> (r: Vec<usize>)
        ensures
            r@.map_values(|u: usize| u as int) == self.filtered_spec(),
    {
        let query = lowercase(self.filter.as_str());
        let query_empty = query.as_str().unicode_len() == 0;
        let mut out: Vec<usize> = Vec::new();
        let mut i: usize = 0;
        while i < self.projects.len()
            invariant
                i <= self.projects@.len(),
                query@ == lower_of(self.filter@),
                query@.len() == 0 <==> self.filter@.len() == 0,
                query_empty == (query@.len() == 0),
                out@.map_values(|u: usize| u as int) == filtered_of(
                    keep_mask(self.names(), self.filter@),
                    i as int,
                ),
            decreases self.projects@.len() - i,
        {
            let ghost prior = out@;
            let keep = if query_empty {
                true
            } else {
                let lname = lowercase(self.projects[i].name.as_str());
                contains_substring(lname.as_str(), query.as_str())
            };
            proof {
                assert(keep_mask(self.names(), self.filter@)[i as int] == keep_spec(
                    self.names()[i as int],
                    self.filter@,
                ));
            }
            if keep {
                out.push(i);
                proof {
                    assert(out@.map_values(|u: usize| u as int) =~= prior.map_values(
                        |u: usize| u as int,
                    ).push(i as int));
                }
            }
            i = i + 1;
        }
        out
    }

    /// Moves the cursor one step through the filtered view — forward for
    /// positive `delta`, backward otherwise — clamping at both ends; on
    /// an empty view the cursor becomes absent. Never yields an
    /// out-of-range index.
    pub fn move_selection(&mut self, delta: i32)
        requires
            old(self).wf(),
        ensures
            final (self).projects@ == old(self).projects@,
            final (self).filter@ == old(self).filter@,
            final (self).searching == old(self).searching,
            final (self).cursor == move_cursor_spec(
                old(self).filtered_spec().len() as int,
                old(self).cursor,
                delta,
            ),
            final (self).wf(),
    {
        let filtered = self.filtered_indices();
        proof {
            assert(filtered@.len() == self.filtered_spec().len());
        }
        if filtered.len() == 0 {
            self.cursor = Option::None;
            return;
        }
        let current = match self.cursor {
            Option::Some(c) => c,
            Option::None => 0,
        };
        let new_index = if delta > 0 {
            if current < filtered.len() - 1 {
                current + 1
            } else {
                filtered.len() - 1
            }
        } else {
            if current > 0 {
                current - 1
            } else {
                0
            }
        };
        self.cursor = Option::Some(new_index);
    }

    /// The project the cursor stands on: the cursor mapped through the
    /// filtered view into the backing collection; absent when the cursor
    /// is absent or out of range.
    pub fn selected_project(&self) -> (r: Option<&Project>)
        ensures
            match r {
                Option::Some(p) => self.selected_index() matches Option::Some(k) && 0 <= k
                    < self.projects@.len() && *p == self.projects@[k],
                Option::None => self.selected_index() is None,
            },
    {
        let filtered = self.filtered_indices();
        match self.cursor {
            Option::None => Option::None,
            Option::Some(c) => {
                if c < filtered.len() {
                    let idx = filtered[c];
                    proof {
                        lemma_filtered_range(
                            keep_mask(self.names(), self.filter@),
                            self.projects@.len() as int,
                        );
                        assert(filtered@.map_values(|u: usize| u as int)[c as int] == idx as int);
                    }
                    Option::Some(&self.projects[idx])
                } else {
                    Option::None
                }
            },
        }
    }

    /// Resets the cursor to the first element of the current filtered
    /// view, or to absent when that view is empty.
    fn reset_cursor(&mut self)
        ensures
            final (self).projects@ == old(self).projects@,
            final (self).filter@ == old(self).filter@,
            final (self).searching == old(self).searching,
            final (self).cursor == cursor_reset_spec(old(self).filtered_spec().len() as int),
            final (self).wf(),
    {
        let filtered = self.filtered_indices();
        proof {
            assert(filtered@.len() == self.filtered_spec().len());
        }
        self.cursor = if filtered.len() == 0 {
            Option::None
        } else {
            Option::Some(0usize)
        };
    }

    /// Enters search mode: the filter text is unchanged (it may be
    /// empty) and the cursor resets to the first element of the filtered
    /// view.
    pub fn enter_search(&mut self)
        ensures
            final (self).projects@ == old(self).projects@,
            final (self).filter@ == old(self).filter@,
            final (self).searching,
            final (self).cursor == cursor_reset_spec(old(self).filtered_spec().len() as int),
            final (self).wf(),
    {
        self.searching = true;
        self.reset_cursor();
    }

    /// Appends one character to the filter text while searching; the
    /// cursor resets to the first element of the narrowed view.
    pub fn push_filter_char(&mut self, c: char)
        requires
            old(self).searching,
        ensures
            final (self).projects@ == old(self).projects@,
            final (self).filter@ == old(self).filter@.push(c),
            final (self).searching,
            final (self).cursor == cursor_reset_spec(final (self).filtered_spec().len() as int),
            final (self).wf(),
    {
        crate::text::push_char(&mut self.filter, c);
        self.reset_cursor();
    }

    /// Deletes the last character of the filter text while searching; an
    /// emptied filter leaves search mode, and the cursor resets to the
    /// first element of the widened view.
    pub fn backspace_filter(&mut self)
        requires
            old(self).searching,
        ensures
            final (self).projects@ == old(self).projects@,
            final (self).filter@ == (if old(self).filter@.len() > 0 {
                old(self).filter@.drop_last()
            } else {
                old(self).filter@
            }),
            final (self).searching == (final (self).filter@.len() > 0),
            final (self).cursor == cursor_reset_spec(final (self).filtered_spec().len() as int),
            final (self).wf(),
    {
        let n = self.filter.as_str().unicode_len();
        if n > 0 {
            let shorter = self.filter.as_str().substring_char(0, n - 1).to_owned();
            proof {
                assert(shorter@ =~= self.filter@.drop_last());
            }
            self.filter = shorter;
        }
        if self.filter.as_str().unicode_len() == 0 {
            self.searching = false;
        }
        self.reset_cursor();
    }

    /// Cancels search mode: clears the filter text, returns to browsing,
    /// and puts the cursor on the first project of the full collection.
    pub fn cancel_search(&mut self)
        ensures
            final (self).projects@ == old(self).projects@,
            final (self).filter@.len() == 0,
            !final (self).searching,
            final (self).cursor == cursor_reset_spec(old(self).projects@.len() as int),
            final (self).wf(),
    {
        self.filter = String::new();
        self.searching = false;
        proof {
            lemma_filtered_all_kept(
                keep_mask(self.names(), self.filter@),
                self.projects@.len() as int,
            );
        }
        self.reset_cursor();
    }
}

} // verus!
