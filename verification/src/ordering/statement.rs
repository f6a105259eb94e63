//! The one statement that writes a whole ordering: its text, and the
//! values bound to its numbered parameters.

use vstd::prelude::*;
use crate::ordering::validator::ColumnOrderUpdate;
use crate::text::{digits, push_digits};

verus! {

/// A statement that writes the positions of an ordering in one round trip.
/// Parameter `$k` of `sql` takes `binds[k - 1]`.
#[derive(Debug, Clone, PartialEq, Eq)]
pub struct PositionWrite {
    pub sql: String,
    pub binds: Vec<i32>,
}

/// The text before the list of rows.
pub open spec fn write_head() -> Seq<char> {
    "UPDATE board_column AS bc SET position = v.position, updated_at = NOW() FROM (VALUES "@
}

/// The row of entry `i`: its identifier is parameter `2i + 1`, its position
/// parameter `2i + 2`.
pub open spec fn write_row(i: nat) -> Seq<char> {
    "($"@ + digits(2 * i + 1) + ", $"@ + digits(2 * i + 2) + ")"@
}

/// The rows of the first `n` entries, separated by commas.
pub open spec fn write_rows(n: nat) -> Seq<char>
    decreases n,
{
    if n == 0 {
        Seq::empty()
    } else if n == 1 {
        write_row(0)
    } else {
        write_rows((n - 1) as nat) + ", "@ + write_row((n - 1) as nat)
    }
}

/// The text after the list of `n` rows: the board is parameter `2n + 1`.
pub open spec fn write_tail(n: nat) -> Seq<char> {
    ") AS v(id, position) WHERE bc.board_id = $"@ + digits(2 * n + 1) + " AND bc.id = v.id"@
}

/// The text of the statement that writes an ordering of `n` entries.
pub open spec fn write_sql(n: nat) -> Seq<char> {
    write_head() + write_rows(n) + write_tail(n)
}

/// The values bound to the statement that writes `updates` to `board_id`:
/// identifier and position of each entry in turn, then the board.
pub open spec fn write_binds(board_id: i32, updates: Seq<ColumnOrderUpdate>) -> Seq<i32> {
    Seq::new(
        2 * updates.len() + 1,
        |k: int|
            if k == 2 * updates.len() {
                board_id
            } else if k % 2 == 0 {
                updates[k / 2].id
            } else {
                updates[k / 2].position
            },
    )
}

/// The statement that writes `updates` to the columns of `board_id`. Every
/// identifier and position is a bound value; the text holds parameter
/// numbers only.
pub fn build_position_write(board_id: i32, updates: &Vec<ColumnOrderUpdate>) -> (write: PositionWrite)
    ensures
        write.sql@ == write_sql(updates@.len()),
        write.binds@ == write_binds(board_id, updates@),
{
    let mut sql = String::from_str(
        "UPDATE board_column AS bc SET position = v.position, updated_at = NOW() FROM (VALUES ",
    );
    let mut binds: Vec<i32> = Vec::new();
    let mut i: usize = 0;
    while i < updates.len()
        invariant
            i <= updates.len(),
            sql@ == write_head() + write_rows(i as nat),
            binds@.len() == 2 * i,
            forall|k: int|
                0 <= k < 2 * i ==> binds@[k] == if k % 2 == 0 {
                    updates@[k / 2].id
                } else {
                    updates@[k / 2].position
                },
        decreases updates.len() - i,
    {
        if i > 0 {
            sql.append(", ");
        }
        let base: u128 = i as u128 * 2 + 1;
        sql.append("($");
        push_digits(&mut sql, base);
        sql.append(", $");
        push_digits(&mut sql, base + 1);
        sql.append(")");
        assert(sql@ =~= write_head() + write_rows((i + 1) as nat));
        binds.push(updates[i].id);
        binds.push(updates[i].position);
        i += 1;
    }
    sql.append(") AS v(id, position) WHERE bc.board_id = $");
    push_digits(&mut sql, updates.len() as u128 * 2 + 1);
    sql.append(" AND bc.id = v.id");
    binds.push(board_id);
    assert(sql@ =~= write_sql(updates@.len()));
    assert(binds@ =~= write_binds(board_id, updates@));
    PositionWrite { sql, binds }
}

/// The entries that `binds` holds before its last value: each pair of
/// values is an identifier and the position asked for it.
pub open spec fn bound_updates(binds: Seq<i32>) -> Seq<ColumnOrderUpdate> {
    Seq::new(
        ((binds.len() - 1) / 2) as nat,
        |k: int| ColumnOrderUpdate { id: binds[2 * k], position: binds[2 * k + 1] },
    )
}

/// The board that `binds` names: its last value.
pub open spec fn bound_board(binds: Seq<i32>) -> i32 {
    binds[binds.len() - 1]
}

/// Reading the values bound to a statement gives back the board and the
/// ordering that it was built from.
pub proof fn lemma_binds_read_back(board_id: i32, updates: Seq<ColumnOrderUpdate>)
    ensures
        write_binds(board_id, updates).len() % 2 == 1,
        bound_board(write_binds(board_id, updates)) == board_id,
        bound_updates(write_binds(board_id, updates)) == updates,
{
    let binds = write_binds(board_id, updates);
    assert(bound_updates(binds) =~= updates);
}

impl PositionWrite {
    /// The board and the ordering that the bound values hold, if they are
    /// an odd number of values: pairs, then the board.
    pub fn bound_values(&self) -> (values: Option<(i32, Vec<ColumnOrderUpdate>)>)
        ensures
            match values {
                Some((board_id, updates)) => self.binds@.len() % 2 == 1 && board_id == bound_board(
                    self.binds@,
                ) && updates@ == bound_updates(self.binds@),
                None => self.binds@.len() % 2 == 0,
            },
    {
        let count = self.binds.len();
        if count % 2 == 0 {
            return None;
        }
        let pairs = (count - 1) / 2;
        let mut updates: Vec<ColumnOrderUpdate> = Vec::new();
        let mut k: usize = 0;
        while k < pairs
            invariant
                k <= pairs,
                count == self.binds@.len(),
                pairs == (count - 1) / 2,
                count % 2 == 1,
                updates@.len() == k,
                forall|j: int|
                    0 <= j < k ==> updates@[j] == (ColumnOrderUpdate {
                        id: self.binds@[2 * j],
                        position: self.binds@[2 * j + 1],
                    }),
            decreases pairs - k,
        {
            updates.push(ColumnOrderUpdate { id: self.binds[2 * k], position: self.binds[2 * k + 1] });
            k += 1;
        }
        assert(updates@ =~= bound_updates(self.binds@));
        Some((self.binds[count - 1], updates))
    }
}

} // verus!
