//! The ordered-set store: the tables the engine reads and writes, held in
//! memory. Each operation stands for one statement against the tables.

use vstd::prelude::*;
use vstd::seq_lib::{to_multiset_build, to_multiset_insert};
use crate::models::card::Card;
use crate::models::column::BoardColumn;
use crate::ordering::statement::{bound_board, bound_updates, PositionWrite};
use crate::ordering::validator::ColumnOrderUpdate;

verus! {

/// The boards that exist, their columns, and the cards of the columns.
#[derive(Debug, Clone, PartialEq, Eq)]
pub struct ColumnStore {
    pub boards: Vec<i32>,
    pub columns: Vec<BoardColumn>,
    pub cards: Vec<Card>,
}

/// No two columns share an identifier.
pub open spec fn distinct_ids(columns: Seq<BoardColumn>) -> bool {
    forall|i: int, j: int|
        0 <= i < columns.len() && 0 <= j < columns.len() && i != j ==> columns[i].id
            != columns[j].id
}

/// The number of columns that belong to `board_id`.
pub open spec fn board_size(columns: Seq<BoardColumn>, board_id: i32) -> nat
    decreases columns.len(),
{
    if columns.len() == 0 {
        0
    } else {
        board_size(columns.drop_last(), board_id) + if columns.last().board_id == board_id {
            1nat
        } else {
            0nat
        }
    }
}

/// The positions of the columns of `board_id` are `0, 1, .., n - 1`, each
/// taken once, where `n` is the number of its columns.
pub open spec fn dense_board(columns: Seq<BoardColumn>, board_id: i32) -> bool {
    &&& forall|i: int|
        0 <= i < columns.len() && columns[i].board_id == board_id ==> 0
            <= #[trigger] columns[i].position && columns[i].position < board_size(
            columns,
            board_id,
        )
    &&& forall|i: int, j: int|
        0 <= i < columns.len() && 0 <= j < columns.len() && i != j && columns[i].board_id
            == board_id && columns[j].board_id == board_id ==> #[trigger] columns[i].position
            != #[trigger] columns[j].position
}

/// The index of the first column whose identifier is `id`, if there is one.
pub open spec fn column_index(columns: Seq<BoardColumn>, id: i32) -> Option<int>
    decreases columns.len(),
{
    if columns.len() == 0 {
        None
    } else {
        match column_index(columns.drop_last(), id) {
            Some(i) => Some(i),
            None => if columns.last().id == id {
                Some(columns.len() - 1)
            } else {
                None
            },
        }
    }
}

/// The position that `updates` asks for the column `id`: that of the first
/// entry that names it.
pub open spec fn requested_position(updates: Seq<ColumnOrderUpdate>, id: i32) -> Option<i32>
    decreases updates.len(),
{
    if updates.len() == 0 {
        None
    } else if updates[0].id == id {
        Some(updates[0].position)
    } else {
        requested_position(updates.drop_first(), id)
    }
}

/// Whether the write of `updates` to `board_id` touches `column`.
pub open spec fn touched(column: BoardColumn, board_id: i32, updates: Seq<ColumnOrderUpdate>) -> bool {
    column.board_id == board_id && requested_position(updates, column.id).is_some()
}

/// `column` after the write of `updates` to `board_id` at the time `now`.
pub open spec fn repositioned(
    column: BoardColumn,
    board_id: i32,
    updates: Seq<ColumnOrderUpdate>,
    now: i64,
) -> BoardColumn {
    if touched(column, board_id, updates) {
        BoardColumn {
            position: requested_position(updates, column.id).unwrap(),
            updated_at: now,
            ..column
        }
    } else {
        column
    }
}

/// The columns after the write of `updates` to `board_id` at the time `now`.
pub open spec fn with_positions(
    columns: Seq<BoardColumn>,
    board_id: i32,
    updates: Seq<ColumnOrderUpdate>,
    now: i64,
) -> Seq<BoardColumn> {
    Seq::new(columns.len(), |i: int| repositioned(columns[i], board_id, updates, now))
}

/// The number of columns that the write of `updates` to `board_id` touches.
pub open spec fn touched_count(
    columns: Seq<BoardColumn>,
    board_id: i32,
    updates: Seq<ColumnOrderUpdate>,
) -> nat
    decreases columns.len(),
{
    if columns.len() == 0 {
        0
    } else {
        touched_count(columns.drop_last(), board_id, updates) + if touched(
            columns.last(),
            board_id,
            updates,
        ) {
            1nat
        } else {
            0nat
        }
    }
}

/// The identifiers of the columns of `board_id`, in table order.
pub open spec fn board_column_ids(columns: Seq<BoardColumn>, board_id: i32) -> Seq<i32>
    decreases columns.len(),
{
    if columns.len() == 0 {
        Seq::empty()
    } else if columns.last().board_id == board_id {
        board_column_ids(columns.drop_last(), board_id).push(columns.last().id)
    } else {
        board_column_ids(columns.drop_last(), board_id)
    }
}

/// The columns of `board_id`, in table order.
pub open spec fn board_columns(columns: Seq<BoardColumn>, board_id: i32) -> Seq<BoardColumn>
    decreases columns.len(),
{
    if columns.len() == 0 {
        Seq::empty()
    } else if columns.last().board_id == board_id {
        board_columns(columns.drop_last(), board_id).push(columns.last())
    } else {
        board_columns(columns.drop_last(), board_id)
    }
}

/// `a` comes before `b` in the order of a board: by position, and by
/// identifier where two positions are equal.
pub open spec fn precedes(a: BoardColumn, b: BoardColumn) -> bool {
    a.position < b.position || (a.position == b.position && a.id <= b.id)
}

/// `columns` is in the order of a board.
pub open spec fn in_board_order(columns: Seq<BoardColumn>) -> bool {
    forall|i: int, j: int| 0 <= i < j < columns.len() ==> precedes(columns[i], columns[j])
}

/// `a` comes strictly before `b` in the order of a board.
pub open spec fn strictly_precedes(a: BoardColumn, b: BoardColumn) -> bool {
    a.position < b.position || (a.position == b.position && a.id < b.id)
}

/// The number of columns of `board_id` that come strictly before `column`
/// in the order of the board.
pub open spec fn rank_in_board(columns: Seq<BoardColumn>, board_id: i32, column: BoardColumn) -> nat
    decreases columns.len(),
{
    if columns.len() == 0 {
        0
    } else {
        rank_in_board(columns.drop_last(), board_id, column) + if columns.last().board_id
            == board_id && strictly_precedes(columns.last(), column) {
            1nat
        } else {
            0nat
        }
    }
}

/// `column` after the columns of `board_id` were renumbered at `now`: a
/// column of the board gets its rank as its position.
pub open spec fn renumbered_column(
    columns: Seq<BoardColumn>,
    board_id: i32,
    now: i64,
    column: BoardColumn,
) -> BoardColumn {
    if column.board_id == board_id {
        BoardColumn {
            position: rank_in_board(columns, board_id, column) as i32,
            updated_at: now,
            ..column
        }
    } else {
        column
    }
}

/// The columns after those of `board_id` were renumbered at `now`.
pub open spec fn renumbered(columns: Seq<BoardColumn>, board_id: i32, now: i64) -> Seq<BoardColumn> {
    Seq::new(columns.len(), |i: int| renumbered_column(columns, board_id, now, columns[i]))
}

/// The cards that do not belong to the column `column_id`, in table order.
pub open spec fn cards_outside(cards: Seq<Card>, column_id: i32) -> Seq<Card>
    decreases cards.len(),
{
    if cards.len() == 0 {
        Seq::empty()
    } else if cards.last().list_id == column_id {
        cards_outside(cards.drop_last(), column_id)
    } else {
        cards_outside(cards.drop_last(), column_id).push(cards.last())
    }
}

/// The columns without the one whose identifier is `id`.
pub open spec fn columns_without(columns: Seq<BoardColumn>, id: i32) -> Seq<BoardColumn> {
    match column_index(columns, id) {
        Some(i) => columns.remove(i),
        None => columns,
    }
}

/// The board of the column `id`, if the column exists.
pub open spec fn board_of(columns: Seq<BoardColumn>, id: i32) -> Option<i32> {
    match column_index(columns, id) {
        Some(i) => Some(columns[i].board_id),
        None => None,
    }
}

/// The highest position among the columns of `board_id`, if it has any.
pub open spec fn highest_position(columns: Seq<BoardColumn>, board_id: i32) -> Option<i32>
    decreases columns.len(),
{
    if columns.len() == 0 {
        None
    } else if columns.last().board_id == board_id {
        match highest_position(columns.drop_last(), board_id) {
            Some(top) => if top < columns.last().position {
                Some(columns.last().position)
            } else {
                Some(top)
            },
            None => Some(columns.last().position),
        }
    } else {
        highest_position(columns.drop_last(), board_id)
    }
}

/// What `highest_position` finds: nothing where the board has no column,
/// and otherwise the position of one of its columns that none exceeds.
pub proof fn lemma_highest_position(columns: Seq<BoardColumn>, board_id: i32)
    ensures
        match highest_position(columns, board_id) {
            Some(top) => {
                &&& exists|i: int|
                    0 <= i < columns.len() && columns[i].board_id == board_id
                        && #[trigger] columns[i].position == top
                &&& forall|i: int|
                    0 <= i < columns.len() && columns[i].board_id == board_id
                        ==> #[trigger] columns[i].position <= top
            },
            None => forall|i: int| 0 <= i < columns.len() ==> (#[trigger] columns[i]).board_id
                != board_id,
        },
    decreases columns.len(),
{
    if columns.len() > 0 {
        let front = columns.drop_last();
        let last = columns.len() - 1;
        lemma_highest_position(front, board_id);
        assert forall|i: int| 0 <= i < front.len() implies front[i] == columns[i] by {}
        match highest_position(front, board_id) {
            Some(top) => {
                let at = choose|i: int|
                    0 <= i < front.len() && front[i].board_id == board_id
                        && #[trigger] front[i].position == top;
                assert(columns[at].position == top);
                assert(columns[last].position == columns.last().position);
                assert forall|i: int|
                    0 <= i < columns.len() && columns[i].board_id == board_id
                        && i < last implies #[trigger] columns[i].position <= top by {
                    assert(front[i].position <= top);
                }
            },
            None => {
                assert forall|i: int| 0 <= i < last implies (#[trigger] columns[i]).board_id
                    != board_id by {
                    assert(front[i].board_id != board_id);
                }
                assert(columns[last].position == columns.last().position);
            },
        }
    }
}

/// What `column_index` finds: the first index that holds `id`.
pub proof fn lemma_column_index(columns: Seq<BoardColumn>, id: i32)
    ensures
        match column_index(columns, id) {
            Some(i) => 0 <= i < columns.len() && columns[i].id == id && forall|k: int|
                0 <= k < i ==> columns[k].id != id,
            None => forall|k: int| 0 <= k < columns.len() ==> columns[k].id != id,
        },
    decreases columns.len(),
{
    if columns.len() > 0 {
        let front = columns.drop_last();
        lemma_column_index(front, id);
        assert forall|k: int| 0 <= k < front.len() implies front[k] == columns[k] by {}
        match column_index(front, id) {
            Some(i) => {
                assert(front[i].id == id);
            },
            None => {
                assert forall|k: int| 0 <= k < front.len() implies columns[k].id != id by {
                    assert(front[k].id != id);
                }
            },
        }
    }
}

/// The index at which `id` is found is the one that `column_index` gives.
pub proof fn lemma_column_index_at(columns: Seq<BoardColumn>, id: i32, i: int)
    requires
        0 <= i < columns.len(),
        columns[i].id == id,
        forall|k: int| 0 <= k < i ==> columns[k].id != id,
    ensures
        column_index(columns, id) == Some(i),
{
    lemma_column_index(columns, id);
}

/// A rank never exceeds the number of columns.
pub proof fn lemma_rank_bound(columns: Seq<BoardColumn>, board_id: i32, column: BoardColumn)
    ensures
        rank_in_board(columns, board_id, column) <= columns.len(),
    decreases columns.len(),
{
    if columns.len() > 0 {
        lemma_rank_bound(columns.drop_last(), board_id, column);
    }
}

/// Whether `a` comes strictly before `b` in the order of a board.
pub fn comes_strictly_before(a: &BoardColumn, b: &BoardColumn) -> (before: bool)
    ensures
        before == strictly_precedes(*a, *b),
{
    a.position < b.position || (a.position == b.position && a.id < b.id)
}

/// Whether `a` comes before `b` in the order of a board, or is level with it.
pub fn comes_before(a: &BoardColumn, b: &BoardColumn) -> (before: bool)
    ensures
        before == precedes(*a, *b),
{
    a.position < b.position || (a.position == b.position && a.id <= b.id)
}

/// The position that `updates` asks for the column `id`, if it names it.
pub fn find_requested(updates: &Vec<ColumnOrderUpdate>, id: i32) -> (found: Option<i32>)
    ensures
        found == requested_position(updates@, id),
{
    let mut i: usize = 0;
    assert(updates@.skip(0) =~= updates@);
    while i < updates.len()
        invariant
            i <= updates.len(),
            requested_position(updates@, id) == requested_position(updates@.skip(i as int), id),
        decreases updates.len() - i,
    {
        assert(updates@.skip(i as int).drop_first() =~= updates@.skip(i + 1));
        if updates[i].id == id {
            return Some(updates[i].position);
        }
        i += 1;
    }
    None
}

impl ColumnStore {
    /// What the store must hold for the engine to work on it: no two
    /// columns share an identifier, and the columns can be counted in an
    /// `i32`.
    pub open spec fn well_formed(&self) -> bool {
        distinct_ids(self.columns@) && self.columns@.len() <= i32::MAX
    }

    /// Whether the store is well formed.
    pub fn is_well_formed(&self) -> (answer: bool)
        ensures
            answer == self.well_formed(),
    {
        if self.columns.len() > 2147483647 {
            return false;
        }
        let mut i: usize = 0;
        while i < self.columns.len()
            invariant
                i <= self.columns.len(),
                forall|a: int, b: int|
                    0 <= a < i && 0 <= b < self.columns@.len() && a != b ==> self.columns@[a].id
                        != self.columns@[b].id,
            decreases self.columns.len() - i,
        {
            let mut j: usize = 0;
            while j < self.columns.len()
                invariant
                    i < self.columns.len(),
                    j <= self.columns.len(),
                    forall|b: int|
                        0 <= b < j && b != i ==> self.columns@[i as int].id != self.columns@[b].id,
                decreases self.columns.len() - j,
            {
                if j != i && self.columns[i].id == self.columns[j].id {
                    return false;
                }
                j += 1;
            }
            i += 1;
        }
        true
    }

    /// An empty store.
    pub fn new() -> (store: ColumnStore)
        ensures
            store.boards@.len() == 0,
            store.columns@.len() == 0,
            store.cards@.len() == 0,
            store.well_formed(),
    {
        ColumnStore { boards: Vec::new(), columns: Vec::new(), cards: Vec::new() }
    }

    /// Whether the board `board_id` exists.
    pub fn board_exists(&self, board_id: i32) -> (exists: bool)
        ensures
            exists == self.boards@.contains(board_id),
    {
        let mut i: usize = 0;
        while i < self.boards.len()
            invariant
                i <= self.boards.len(),
                forall|k: int| 0 <= k < i ==> self.boards@[k] != board_id,
            decreases self.boards.len() - i,
        {
            if self.boards[i] == board_id {
                return true;
            }
            i += 1;
        }
        false
    }

    /// The identifiers of the columns of `board_id`, in table order.
    pub fn column_ids(&self, board_id: i32) -> (ids: Vec<i32>)
        ensures
            ids@ == board_column_ids(self.columns@, board_id),
    {
        let mut ids: Vec<i32> = Vec::new();
        let mut i: usize = 0;
        while i < self.columns.len()
            invariant
                i <= self.columns.len(),
                ids@ == board_column_ids(self.columns@.take(i as int), board_id),
            decreases self.columns.len() - i,
        {
            assert(self.columns@.take(i + 1).drop_last() =~= self.columns@.take(i as int));
            if self.columns[i].board_id == board_id {
                ids.push(self.columns[i].id);
            }
            i += 1;
        }
        assert(self.columns@.take(i as int) =~= self.columns@);
        ids
    }

    /// Writes the positions that `updates` asks for to the columns of
    /// `board_id` that it names, marks them as changed at `now`, and
    /// returns how many columns it changed. A column of another board is
    /// never touched, whatever `updates` names.
    pub fn write_positions(&mut self, board_id: i32, updates: &Vec<ColumnOrderUpdate>, now: i64) -> (rows: u64)
        ensures
            final(self).columns@ == with_positions(old(self).columns@, board_id, updates@, now),
            final(self).boards == old(self).boards,
            final(self).cards == old(self).cards,
            rows == touched_count(old(self).columns@, board_id, updates@),
    {
        let ghost before = self.columns@;
        let mut rows: u64 = 0;
        let mut i: usize = 0;
        while i < self.columns.len()
            invariant
                i <= self.columns.len(),
                self.columns@.len() == before.len(),
                self.boards == old(self).boards,
                self.cards == old(self).cards,
                rows == touched_count(before.take(i as int), board_id, updates@),
                rows <= i,
                forall|k: int|
                    0 <= k < i ==> self.columns@[k] == repositioned(
                        before[k],
                        board_id,
                        updates@,
                        now,
                    ),
                forall|k: int| i <= k < before.len() ==> self.columns@[k] == before[k],
            decreases self.columns.len() - i,
        {
            assert(before.take(i + 1).drop_last() =~= before.take(i as int));
            if self.columns[i].board_id == board_id {
                match find_requested(updates, self.columns[i].id) {
                    Some(position) => {
                        let row = self.columns[i].duplicate();
                        self.columns[i] = BoardColumn { position, updated_at: now, ..row };
                        rows += 1;
                    },
                    None => {},
                }
            }
            i += 1;
        }
        assert(before.take(i as int) =~= before);
        assert(self.columns@ =~= with_positions(before, board_id, updates@, now));
        rows
    }

    /// The board of the column `id`, if the column exists.
    pub fn column_board(&self, id: i32) -> (board: Option<i32>)
        ensures
            board == board_of(self.columns@, id),
    {
        let mut i: usize = 0;
        while i < self.columns.len()
            invariant
                i <= self.columns.len(),
                forall|k: int| 0 <= k < i ==> self.columns@[k].id != id,
            decreases self.columns.len() - i,
        {
            if self.columns[i].id == id {
                proof {
                    lemma_column_index_at(self.columns@, id, i as int);
                }
                return Some(self.columns[i].board_id);
            }
            i += 1;
        }
        proof {
            lemma_column_index(self.columns@, id);
        }
        None
    }

    /// Deletes the cards of the column `column_id` and returns how many
    /// there were.
    pub fn delete_cards_of(&mut self, column_id: i32) -> (rows: u64)
        ensures
            final(self).cards@ == cards_outside(old(self).cards@, column_id),
            final(self).boards == old(self).boards,
            final(self).columns == old(self).columns,
            rows == old(self).cards@.len() - final(self).cards@.len(),
    {
        let ghost before = self.cards@;
        let ghost mut passed: int = 0;
        assert(before.len() == self.cards.len());
        let mut rows: u64 = 0;
        let mut i: usize = 0;
        while i < self.cards.len()
            invariant
                i <= self.cards.len(),
                self.boards == old(self).boards,
                self.columns == old(self).columns,
                0 <= passed <= before.len(),
                passed == i + rows,
                self.cards@.len() + rows == before.len(),
                before.len() <= usize::MAX,
                self.cards@.take(i as int) == cards_outside(before.take(passed), column_id),
                self.cards@.skip(i as int) == before.skip(passed),
            decreases self.cards.len() - i,
        {
            assert(before.take(passed + 1).drop_last() =~= before.take(passed));
            assert(self.cards@[i as int] == self.cards@.skip(i as int)[0]);
            assert(before[passed] == before.skip(passed)[0]);
            let ghost current = self.cards@;
            if self.cards[i].list_id == column_id {
                self.cards.remove(i);
                rows += 1;
                assert(self.cards@.take(i as int) =~= current.take(i as int));
                assert(self.cards@.skip(i as int) =~= current.skip(i as int).skip(1));
                assert(before.skip(passed).skip(1) =~= before.skip(passed + 1));
            } else {
                i += 1;
                assert(self.cards@.take(i as int) =~= current.take(i - 1).push(current[i - 1]));
                assert(self.cards@.skip(i as int) =~= current.skip(i - 1).skip(1));
                assert(before.skip(passed).skip(1) =~= before.skip(passed + 1));
            }
            proof {
                passed = passed + 1;
            }
        }
        assert(self.cards@.take(i as int) =~= self.cards@);
        assert(before.skip(passed).len() == 0);
        assert(before.take(passed) =~= before);
        rows
    }

    /// Deletes the column `id` and returns how many columns it deleted:
    /// one if the column existed, none otherwise.
    pub fn delete_column_row(&mut self, id: i32) -> (rows: u64)
        ensures
            final(self).columns@ == columns_without(old(self).columns@, id),
            final(self).boards == old(self).boards,
            final(self).cards == old(self).cards,
            rows == if column_index(old(self).columns@, id).is_some() {
                1u64
            } else {
                0u64
            },
    {
        let mut i: usize = 0;
        while i < self.columns.len()
            invariant
                i <= self.columns.len(),
                self.columns == old(self).columns,
                self.boards == old(self).boards,
                self.cards == old(self).cards,
                forall|k: int| 0 <= k < i ==> self.columns@[k].id != id,
            decreases self.columns.len() - i,
        {
            if self.columns[i].id == id {
                proof {
                    lemma_column_index_at(self.columns@, id, i as int);
                }
                self.columns.remove(i);
                return 1;
            }
            i += 1;
        }
        proof {
            lemma_column_index(self.columns@, id);
        }
        0
    }

    /// The number of columns of `board_id` that come strictly before the
    /// column at `index` in the order of the board.
    pub fn rank_of(&self, board_id: i32, index: usize) -> (rank: usize)
        requires
            index < self.columns@.len(),
        ensures
            rank == rank_in_board(self.columns@, board_id, self.columns@[index as int]),
    {
        let mut rank: usize = 0;
        let mut j: usize = 0;
        while j < self.columns.len()
            invariant
                j <= self.columns.len(),
                index < self.columns@.len(),
                rank <= j,
                rank == rank_in_board(
                    self.columns@.take(j as int),
                    board_id,
                    self.columns@[index as int],
                ),
            decreases self.columns.len() - j,
        {
            assert(self.columns@.take(j + 1).drop_last() =~= self.columns@.take(j as int));
            if self.columns[j].board_id == board_id && comes_strictly_before(
                &self.columns[j],
                &self.columns[index],
            ) {
                rank += 1;
            }
            j += 1;
        }
        assert(self.columns@.take(j as int) =~= self.columns@);
        rank
    }

    /// Gives each column of `board_id` its rank in the order of the board
    /// as its position, marks it as changed at `now`, and returns how many
    /// columns the board has.
    pub fn renumber(&mut self, board_id: i32, now: i64) -> (rows: u64)
        requires
            old(self).columns@.len() <= i32::MAX,
        ensures
            final(self).columns@ == renumbered(old(self).columns@, board_id, now),
            final(self).boards == old(self).boards,
            final(self).cards == old(self).cards,
            rows == board_size(old(self).columns@, board_id),
    {
        let ghost before = self.columns@;
        let mut ranks: Vec<i32> = Vec::new();
        let mut i: usize = 0;
        while i < self.columns.len()
            invariant
                i <= self.columns.len(),
                self.columns@ == before,
                before.len() <= i32::MAX,
                ranks@.len() == i,
                forall|k: int|
                    0 <= k < i ==> ranks@[k] == rank_in_board(before, board_id, before[k]),
            decreases self.columns.len() - i,
        {
            let rank = self.rank_of(board_id, i);
            proof {
                lemma_rank_bound(before, board_id, before[i as int]);
            }
            ranks.push(rank as i32);
            i += 1;
        }
        let mut rows: u64 = 0;
        let mut i: usize = 0;
        while i < self.columns.len()
            invariant
                i <= self.columns.len(),
                self.columns@.len() == before.len(),
                before.len() <= i32::MAX,
                self.boards == old(self).boards,
                self.cards == old(self).cards,
                ranks@.len() == before.len(),
                rows == board_size(before.take(i as int), board_id),
                rows <= i,
                forall|k: int|
                    0 <= k < before.len() ==> ranks@[k] == rank_in_board(
                        before,
                        board_id,
                        before[k],
                    ),
                forall|k: int|
                    0 <= k < i ==> self.columns@[k] == renumbered_column(
                        before,
                        board_id,
                        now,
                        before[k],
                    ),
                forall|k: int| i <= k < before.len() ==> self.columns@[k] == before[k],
            decreases self.columns.len() - i,
        {
            assert(before.take(i + 1).drop_last() =~= before.take(i as int));
            if self.columns[i].board_id == board_id {
                proof {
                    lemma_rank_bound(before, board_id, before[i as int]);
                }
                let row = self.columns[i].duplicate();
                self.columns[i] = BoardColumn { position: ranks[i], updated_at: now, ..row };
                rows += 1;
            }
            i += 1;
        }
        assert(before.take(i as int) =~= before);
        assert(self.columns@ =~= renumbered(before, board_id, now));
        rows
    }

    /// The columns of `board_id` in the order of the board: by position,
    /// and by identifier where two positions are equal.
    pub fn columns_in_order(&self, board_id: i32) -> (ordered: Vec<BoardColumn>)
        ensures
            in_board_order(ordered@),
            ordered@.to_multiset() == board_columns(self.columns@, board_id).to_multiset(),
    {
        let mut ordered: Vec<BoardColumn> = Vec::new();
        let mut i: usize = 0;
        while i < self.columns.len()
            invariant
                i <= self.columns.len(),
                in_board_order(ordered@),
                ordered@.to_multiset() == board_columns(
                    self.columns@.take(i as int),
                    board_id,
                ).to_multiset(),
            decreases self.columns.len() - i,
        {
            assert(self.columns@.take(i + 1).drop_last() =~= self.columns@.take(i as int));
            if self.columns[i].board_id == board_id {
                let mut j: usize = 0;
                while j < ordered.len() && comes_before(&ordered[j], &self.columns[i])
                    invariant
                        j <= ordered.len(),
                        i < self.columns.len(),
                        forall|k: int| 0 <= k < j ==> precedes(ordered@[k], self.columns@[i as int]),
                    decreases ordered.len() - j,
                {
                    j += 1;
                }
                let ghost earlier = ordered@;
                let row = self.columns[i].duplicate();
                ordered.insert(j, row);
                proof {
                    to_multiset_insert(earlier, j as int, row);
                    to_multiset_build(
                        board_columns(self.columns@.take(i as int), board_id),
                        self.columns@[i as int],
                    );
                    assert forall|a: int, b: int| 0 <= a < b < ordered@.len() implies precedes(
                        ordered@[a],
                        ordered@[b],
                    ) by {
                        if a < j && b > j {
                            assert(precedes(earlier[a], earlier[b - 1]));
                        } else if a < j && b < j {
                            assert(precedes(earlier[a], earlier[b]));
                        } else if a > j {
                            assert(precedes(earlier[a - 1], earlier[b - 1]));
                        } else if a == j {
                            assert(!precedes(earlier[j as int], row));
                            assert(b > j ==> precedes(earlier[j as int], earlier[b - 1]));
                        }
                    }
                }
            }
            i += 1;
        }
        assert(self.columns@.take(i as int) =~= self.columns@);
        ordered
    }

    /// Runs the statement `write` at the time `now` and returns how many
    /// columns it changed; `None`, with nothing changed, where its bound
    /// values are not pairs followed by a board.
    pub fn run_position_write(&mut self, write: &PositionWrite, now: i64) -> (rows: Option<u64>)
        ensures
            final(self).boards == old(self).boards,
            final(self).cards == old(self).cards,
            match rows {
                Some(changed) => write.binds@.len() % 2 == 1 && final(self).columns@
                    == with_positions(
                    old(self).columns@,
                    bound_board(write.binds@),
                    bound_updates(write.binds@),
                    now,
                ) && changed == touched_count(
                    old(self).columns@,
                    bound_board(write.binds@),
                    bound_updates(write.binds@),
                ),
                None => write.binds@.len() % 2 == 0 && final(self).columns == old(self).columns,
            },
    {
        match write.bound_values() {
            Some((board_id, updates)) => Some(self.write_positions(board_id, &updates, now)),
            None => None,
        }
    }

    /// Where in the table the column `id` stands, if the column exists.
    pub fn column_place(&self, id: i32) -> (place: Option<usize>)
        ensures
            match place {
                Some(i) => column_index(self.columns@, id) == Some(i as int),
                None => column_index(self.columns@, id).is_none(),
            },
    {
        let mut i: usize = 0;
        while i < self.columns.len()
            invariant
                i <= self.columns.len(),
                forall|k: int| 0 <= k < i ==> self.columns@[k].id != id,
            decreases self.columns.len() - i,
        {
            if self.columns[i].id == id {
                proof {
                    lemma_column_index_at(self.columns@, id, i as int);
                }
                return Some(i);
            }
            i += 1;
        }
        proof {
            lemma_column_index(self.columns@, id);
        }
        None
    }

    /// The highest position among the columns of `board_id`, if it has any.
    pub fn highest_on_board(&self, board_id: i32) -> (top: Option<i32>)
        ensures
            top == highest_position(self.columns@, board_id),
    {
        let mut top: Option<i32> = None;
        let mut i: usize = 0;
        while i < self.columns.len()
            invariant
                i <= self.columns.len(),
                top == highest_position(self.columns@.take(i as int), board_id),
            decreases self.columns.len() - i,
        {
            assert(self.columns@.take(i + 1).drop_last() =~= self.columns@.take(i as int));
            if self.columns[i].board_id == board_id {
                top = match top {
                    Some(seen) => if seen < self.columns[i].position {
                        Some(self.columns[i].position)
                    } else {
                        Some(seen)
                    },
                    None => Some(self.columns[i].position),
                };
            }
            i += 1;
        }
        assert(self.columns@.take(i as int) =~= self.columns@);
        top
    }
}

} // verus!
