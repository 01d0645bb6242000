//! Cursor and marked rows of one list.

use std::collections::HashSet;
use vstd::prelude::*;

verus! {

/// Cursor + multi-selection state for one list.
///
/// Rows are numbered in the tab's **filtered** view, so navigation methods take
/// the current filtered length.
pub struct Selection {
    /// Cursor row.
    pub cursor: usize,
    /// Multi-selected rows. Empty means "act on the cursor row".
    pub marked: HashSet<usize>,
}

/// What a `Selection` stands for.
#[verifier::ext_equal]
pub struct SelectionModel {
    pub cursor: usize,
    pub marked: Set<usize>,
}

impl View for Selection {
    type V = SelectionModel;

    open spec fn view(&self) -> SelectionModel {
        SelectionModel { cursor: self.cursor, marked: self.marked@ }
    }
}

/// `rows` lists the elements of `marked`, each once, from the smallest up.
pub open spec fn lists_ascending(rows: Seq<usize>, marked: Set<usize>) -> bool {
    &&& forall|i: int, j: int| 0 <= i < j < rows.len() ==> rows[i] < rows[j]
    &&& forall|x: usize| rows.contains(x) <==> marked.contains(x)
}

/// The elements of `marked` from the smallest up.
pub open spec fn ascending(marked: Set<usize>) -> Seq<usize> {
    choose|rows: Seq<usize>| lists_ascending(rows, marked)
}

/// Every row of a list of `len` rows.
pub open spec fn all_rows(len: nat) -> Set<usize> {
    Set::new(|i: usize| i < len)
}

impl SelectionModel {
    /// Nothing marked, cursor at the top.
    pub open spec fn initial() -> SelectionModel {
        SelectionModel { cursor: 0, marked: Set::empty() }
    }

    /// The cursor brought back into a list of `len` rows; left alone when there
    /// are none.
    pub open spec fn clamped(self, len: nat) -> SelectionModel {
        if self.cursor >= len && len > 0 {
            SelectionModel { cursor: (len - 1) as usize, ..self }
        } else {
            self
        }
    }

    /// The cursor one row up, if there is one.
    pub open spec fn moved_up(self) -> SelectionModel {
        if self.cursor > 0 {
            SelectionModel { cursor: (self.cursor - 1) as usize, ..self }
        } else {
            self
        }
    }

    /// The cursor one row down, if there is one in a list of `len` rows.
    pub open spec fn moved_down(self, len: nat) -> SelectionModel {
        if self.cursor + 1 < len {
            SelectionModel { cursor: (self.cursor + 1) as usize, ..self }
        } else {
            self
        }
    }

    /// The mark on the cursor row flipped.
    pub open spec fn toggled(self) -> SelectionModel {
        SelectionModel {
            marked: if self.marked.contains(self.cursor) {
                self.marked.remove(self.cursor)
            } else {
                self.marked.insert(self.cursor)
            },
            ..self
        }
    }

    /// Every one of `len` rows is marked.
    pub open spec fn all_marked(self, len: nat) -> bool {
        forall|i: usize| i < len ==> self.marked.contains(i)
    }

    /// Every one of `len` rows marked, or none if all of them were; a list
    /// without rows changes nothing.
    pub open spec fn all_toggled(self, len: nat) -> SelectionModel {
        if len == 0 {
            self
        } else if self.all_marked(len) {
            self.unmarked()
        } else {
            SelectionModel { marked: all_rows(len), ..self }
        }
    }

    /// Nothing marked.
    pub open spec fn unmarked(self) -> SelectionModel {
        SelectionModel { marked: Set::empty(), ..self }
    }

    /// The rows to act on.
    pub open spec fn active_rows(self) -> Seq<usize> {
        if self.marked == Set::<usize>::empty() {
            seq![self.cursor]
        } else {
            ascending(self.marked)
        }
    }
}

proof fn lemma_same_elements_same_rows(a: Seq<usize>, b: Seq<usize>, marked: Set<usize>)
    requires
        lists_ascending(a, marked),
        lists_ascending(b, marked),
    ensures
        a.len() <= b.len(),
        forall|i: int| 0 <= i < a.len() ==> a[i] == b[i],
    decreases a.len() + b.len(),
{
    if a.len() > 0 {
        assert(a.contains(a.last()));
        assert(b.contains(a.last()));
        assert(b.len() > 0);
        let k = b.index_of(a.last());
        assert(b.contains(b.last()));
        assert(a.contains(b.last()));
        let l = a.index_of(b.last());
        assert(a[l] <= a.last());
        assert(b[k] <= b.last());
        assert(a.last() == b.last());
        let rest = marked.remove(a.last());
        assert forall|x: usize| a.drop_last().contains(x) <==> rest.contains(x) by {
            lemma_without_last(a, marked, x);
        }
        assert forall|x: usize| b.drop_last().contains(x) <==> rest.contains(x) by {
            lemma_without_last(b, marked, x);
        }
        assert(lists_ascending(a.drop_last(), rest));
        assert(lists_ascending(b.drop_last(), rest));
        lemma_same_elements_same_rows(a.drop_last(), b.drop_last(), rest);
        lemma_same_elements_same_rows(b.drop_last(), a.drop_last(), rest);
        assert forall|i: int| 0 <= i < a.len() implies a[i] == b[i] by {
            if i < a.len() - 1 {
                assert(a.drop_last()[i] == b.drop_last()[i]);
            }
        }
    }
}

proof fn lemma_without_last(rows: Seq<usize>, marked: Set<usize>, x: usize)
    requires
        rows.len() > 0,
        lists_ascending(rows, marked),
    ensures
        rows.drop_last().contains(x) <==> marked.contains(x) && x != rows.last(),
{
    if rows.drop_last().contains(x) {
        let i = rows.drop_last().index_of(x);
        assert(rows[i] == x);
        assert(rows.contains(x));
    }
    if marked.contains(x) && x != rows.last() {
        let i = rows.index_of(x);
        assert(rows.drop_last()[i] == x);
    }
}

/// There is only one way to list rows from the smallest up.
pub proof fn ascending_is_unique(rows: Seq<usize>, marked: Set<usize>)
    requires
        lists_ascending(rows, marked),
    ensures
        rows == ascending(marked),
{
    lemma_same_elements_same_rows(rows, ascending(marked), marked);
    lemma_same_elements_same_rows(ascending(marked), rows, marked);
    assert(rows =~= ascending(marked));
}

proof fn lemma_largest(s: Set<usize>) -> (m: usize)
    requires
        s.finite(),
        s.len() > 0,
    ensures
        s.contains(m),
        forall|x: usize| s.contains(x) ==> x <= m,
    decreases s.len(),
{
    let a = s.choose();
    let rest = s.remove(a);
    if rest.len() == 0 {
        assert forall|x: usize| s.contains(x) implies x <= a by {
            if x != a {
                assert(rest.contains(x));
            }
        }
        a
    } else {
        let m = lemma_largest(rest);
        assert forall|x: usize| s.contains(x) implies x <= a || x <= m by {
            if x != a {
                assert(rest.contains(x));
            }
        }
        if m < a {
            a
        } else {
            m
        }
    }
}

/// A finite set of rows can be listed from the smallest up.
pub proof fn finite_marks_can_be_listed(marked: Set<usize>)
    requires
        marked.finite(),
    ensures
        lists_ascending(ascending(marked), marked),
    decreases marked.len(),
{
    if marked.len() == 0 {
        let rows = Seq::<usize>::empty();
        assert(lists_ascending(rows, marked));
        ascending_is_unique(rows, marked);
    } else {
        let m = lemma_largest(marked);
        let rest = marked.remove(m);
        finite_marks_can_be_listed(rest);
        let init = ascending(rest);
        let rows = init.push(m);
        assert forall|i: int, j: int| 0 <= i < j < rows.len() implies rows[i] < rows[j] by {
            assert(init.contains(init[i]));
            if j < init.len() {
                assert(init[i] < init[j]);
            }
        }
        assert forall|x: usize| rows.contains(x) <==> marked.contains(x) by {
            if init.contains(x) {
                assert(rows[init.index_of(x)] == x);
            }
            assert(rows[init.len() as int] == m);
            if rows.contains(x) && x != m {
                assert(init[rows.index_of(x)] == x);
            }
        }
        assert(lists_ascending(rows, marked));
        ascending_is_unique(rows, marked);
    }
}

/// Marking a row twice leaves every mark as it was.
pub proof fn toggling_twice_restores(s: SelectionModel)
    ensures
        s.toggled().toggled() == s,
{
    assert(s.toggled().toggled().marked =~= s.marked);
}

/// Marking all rows twice leaves nothing marked, unless all were marked at the
/// start: then it leaves them marked.
pub proof fn toggling_all_twice(s: SelectionModel, len: nat)
    requires
        0 < len <= usize::MAX,
    ensures
        !s.all_marked(len) ==> s.all_toggled(len).all_toggled(len) == s.unmarked(),
        s.all_marked(len) ==> s.all_toggled(len).all_toggled(len) == (SelectionModel {
            marked: all_rows(len),
            ..s
        }),
{
    if s.all_marked(len) {
        assert(!s.unmarked().marked.contains(0usize));
        assert(!s.unmarked().all_marked(len));
    } else {
        assert((SelectionModel { marked: all_rows(len), ..s }).all_marked(len));
    }
}

impl Default for Selection {
    fn default() -> (s: Self)
        ensures
            s@ == SelectionModel::initial(),
    {
        Selection { cursor: 0, marked: HashSet::new() }
    }
}

impl Selection {
    /// Brings the cursor back into a list of `len` rows.
    pub fn clamp(&mut self, len: usize)
        ensures
            final(self)@ == old(self)@.clamped(len as nat),
    {
        if self.cursor >= len && len > 0 {
            self.cursor = len - 1;
        }
    }

    /// Moves the cursor up. Returns `true` if it was already at the top (the
    /// caller may then refocus the filter input).
    pub fn up(&mut self) -> (at_top: bool)
        ensures
            final(self)@ == old(self)@.moved_up(),
            at_top == (old(self).cursor == 0),
    {
        if self.cursor > 0 {
            self.cursor = self.cursor - 1;
            false
        } else {
            true
        }
    }

    /// Moves the cursor down in a list of `len` rows.
    pub fn down(&mut self, len: usize)
        ensures
            final(self)@ == old(self)@.moved_down(len as nat),
    {
        if len > 0 && self.cursor < len - 1 {
            self.cursor = self.cursor + 1;
        }
    }

    /// Marks the cursor row, or takes its mark away.
    pub fn toggle_current(&mut self)
        ensures
            final(self)@ == old(self)@.toggled(),
    {
        let cursor: usize = self.cursor;
        if !self.marked.remove(&cursor) {
            self.marked.insert(cursor);
        }
        assert(self@.marked =~= old(self)@.toggled().marked);
    }

    /// Selects every row, or clears if all `len` rows are already selected.
    pub fn toggle_all(&mut self, len: usize)
        ensures
            final(self)@ == old(self)@.all_toggled(len as nat),
    {
        if len == 0 {
            return ;
        }
        let mut i: usize = 0;
        while i < len && self.marked.contains(&i)
            invariant
                i <= len,
                *self == *old(self),
                forall|k: usize| k < i ==> self@.marked.contains(k),
            decreases len - i,
        {
            i += 1;
        }
        if i == len {
            self.marked.clear();
        } else {
            assert(!old(self)@.marked.contains(i));
            let mut all: HashSet<usize> = HashSet::new();
            let mut k: usize = 0;
            while k < len
                invariant
                    k <= len,
                    all@ == all_rows(k as nat),
                decreases len - k,
            {
                all.insert(k);
                k += 1;
                assert(all@ =~= all_rows(k as nat));
            }
            self.marked = all;
        }
    }

    /// Nothing marked, cursor at the top.
    pub fn reset(&mut self)
        ensures
            final(self)@ == SelectionModel::initial(),
    {
        self.cursor = 0;
        self.marked.clear();
    }

    /// Row indices to act on: the marked set (sorted), or `[cursor]` when
    /// nothing is marked.
    pub fn active(&self) -> (rows: Vec<usize>)
        ensures
            rows@ == self@.active_rows(),
            self@.marked != Set::<usize>::empty() ==> lists_ascending(rows@, self@.marked),
    {
        let mut rows: Vec<usize> = Vec::new();
        if self.marked.is_empty() {
            rows.push(self.cursor);
            assert(self.marked@ =~= Set::<usize>::empty());
            return rows;
        }
        let ghost mut seen: Seq<usize> = Seq::empty();
        for row in it: self.marked.iter()
            invariant
                it.seq().unref().to_set() == self.marked@,
                seen == it.seq().unref().take(it.index()),
                it.index() == it.seq().len() ==> seen.to_set() == self.marked@,
                forall|i: int, j: int| 0 <= i < j < rows@.len() ==> rows@[i] < rows@[j],
                forall|x: usize| rows@.contains(x) <==> seen.contains(x),
        {
            insert_row(&mut rows, *row);
            proof {
                let before = seen;
                seen = before.push(*row);
                if it.index() + 1 == it.seq().len() {
                    assert(seen =~= it.seq().unref());
                }
                assert forall|x: usize| rows@.contains(x) <==> seen.contains(x) by {
                    if before.contains(x) {
                        assert(seen[before.index_of(x)] == x);
                    }
                    assert(seen[before.len() as int] == *row);
                    if seen.contains(x) && x != *row {
                        assert(before[seen.index_of(x)] == x);
                    }
                }
            }
        }
        proof {
            assert(seen.to_set() == self.marked@);
            assert(lists_ascending(rows@, self.marked@));
            ascending_is_unique(rows@, self.marked@);
        }
        rows
    }
}

/// Puts `row` into its place in an ascending list, unless it is there.
fn insert_row(rows: &mut Vec<usize>, row: usize)
    requires
        forall|i: int, j: int| 0 <= i < j < old(rows)@.len() ==> old(rows)@[i] < old(rows)@[j],
    ensures
        forall|i: int, j: int| 0 <= i < j < final(rows)@.len() ==> final(rows)@[i] < final(rows)@[j],
        forall|x: usize| final(rows)@.contains(x) <==> old(rows)@.contains(x) || x == row,
{
    let mut at: usize = 0;
    while at < rows.len() && rows[at] < row
        invariant
            at <= rows@.len(),
            *rows == *old(rows),
            forall|i: int| 0 <= i < at ==> rows@[i] < row,
        decreases rows@.len() - at,
    {
        at += 1;
    }
    if at < rows.len() && rows[at] == row {
        assert(rows@.contains(row));
        return ;
    }
    rows.insert(at, row);
    assert forall|x: usize| rows@.contains(x) <==> old(rows)@.contains(x) || x == row by {
        if old(rows)@.contains(x) {
            let i = old(rows)@.index_of(x);
            assert(rows@[if i < at {
                i
            } else {
                i + 1
            }] == x);
        }
        assert(rows@[at as int] == row);
        if rows@.contains(x) && x != row {
            let i = rows@.index_of(x);
            assert(old(rows)@[if i < at {
                i
            } else {
                i - 1
            }] == x);
        }
    }
}

// ---------------------------------------------------------------------------
// Laws
// ---------------------------------------------------------------------------

/// The cursor goes one row down unless it is on the last row or past it, one row
/// up unless it is on the first, and back to the last row when the list got
/// shorter. Marks stay where they are.
pub proof fn the_cursor_moves_row_by_row(s: SelectionModel, len: nat)
    requires
        len <= usize::MAX,
    ensures
        s.moved_down(len).cursor == if s.cursor + 1 < len {
            s.cursor + 1
        } else {
            s.cursor as int
        },
        s.moved_up().cursor == if s.cursor > 0 {
            s.cursor - 1
        } else {
            0
        },
        s.clamped(len).cursor == if len > 0 && s.cursor >= len {
            len - 1
        } else {
            s.cursor as int
        },
        s.moved_down(len).marked == s.marked,
        s.moved_up().marked == s.marked,
        s.clamped(len).marked == s.marked,
        0 < s.cursor < len ==> s.moved_up().moved_down(len) == s,
        s.cursor + 1 < len ==> s.moved_down(len).moved_up() == s,
{
}

/// Marking flips the mark of the cursor row and of no other; the cursor stays.
pub proof fn marking_flips_the_cursor_row_alone(s: SelectionModel, row: usize)
    ensures
        s.toggled().marked.contains(row) == if row == s.cursor {
            !s.marked.contains(row)
        } else {
            s.marked.contains(row)
        },
        s.toggled().cursor == s.cursor,
{
}

/// Marking all marks every row of the list and no other, unless every row is
/// marked: then none is. The cursor stays, and an empty list changes nothing.
pub proof fn marking_all_marks_every_row(s: SelectionModel, len: nat, row: usize)
    ensures
        len > 0 && (exists|i: usize| i < len && !#[trigger] s.marked.contains(i)) ==> (
        s.all_toggled(len).marked.contains(row) <==> row < len),
        len > 0 && (forall|i: usize| i < len ==> #[trigger] s.marked.contains(i))
            ==> !s.all_toggled(len).marked.contains(row),
        len == 0 ==> s.all_toggled(len) == s,
        s.all_toggled(len).cursor == s.cursor,
        !s.unmarked().marked.contains(row) && s.unmarked().cursor == s.cursor,
{
}

/// The rows to act on: the cursor row if nothing is marked, else the marked rows
/// and no others, each once, from the top down.
pub proof fn marked_rows_are_acted_on_from_the_top(s: SelectionModel, row: usize)
    requires
        s.marked.finite(),
    ensures
        (forall|i: usize| !#[trigger] s.marked.contains(i)) ==> s.active_rows() == seq![s.cursor],
        s.marked.contains(row) ==> s.active_rows().contains(row),
        s.active_rows().contains(row) ==> s.marked.contains(row) || (row == s.cursor && s.marked
            == Set::<usize>::empty()),
        forall|i: int, j: int|
            0 <= i < j < s.active_rows().len() ==> s.active_rows()[i] < s.active_rows()[j],
{
    if s.marked == Set::<usize>::empty() {
        let at = s.active_rows();
        if at.contains(row) {
            assert(at[at.index_of(row)] == row);
        }
    } else {
        finite_marks_can_be_listed(s.marked);
        if forall|i: usize| !#[trigger] s.marked.contains(i) {
            assert(s.marked =~= Set::empty());
        }
    }
}

/// Rows that are listed from the smallest up are the marked ones, all of them and
/// no others, and none stands twice.
pub proof fn listed_rows_are_the_marked_ones(rows: Seq<usize>, marked: Set<usize>, k: int, l: int)
    requires
        lists_ascending(rows, marked),
    ensures
        0 <= k < rows.len() ==> marked.contains(rows[k]),
        0 <= k < l < rows.len() ==> rows[k] < rows[l],
        forall|row: usize| #[trigger] marked.contains(row) ==> exists|i: int|
            0 <= i < rows.len() && #[trigger] rows[i] == row,
{
    if 0 <= k < rows.len() {
        assert(rows.contains(rows[k]));
    }
    assert forall|row: usize| #[trigger] marked.contains(row) implies exists|i: int|
        0 <= i < rows.len() && #[trigger] rows[i] == row by {
        assert(rows.contains(row));
        assert(rows[rows.index_of(row)] == row);
    }
}

/// What stands for a selection is its cursor and its marks; a new one has the
/// cursor at the top and no mark.
pub proof fn selections_are_told_apart_by_cursor_and_marks(s: Selection, row: usize)
    ensures
        s@.cursor == s.cursor && s@.marked == s.marked@,
        SelectionModel::initial().cursor == 0,
        !SelectionModel::initial().marked.contains(row),
{
}

} // verus!
