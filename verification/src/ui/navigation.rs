//! Moving the selection over a list that is laid out in rows of fixed width.

use vstd::prelude::*;

verus! {

/// A move of the selection by one cell.
#[derive(Debug, Clone, Copy, PartialEq, Eq, Structural)]
pub enum Direction {
    Up,
    Down,
    Left,
    Right,
}

/// The index that is selected after a move in `direction`, for a list of
/// `count` items in rows of `per_row`.
///
/// An empty list has nothing to move over.  `Up` and `Left` stay where they
/// are when they would leave the grid, `Right` stays on the last item, and
/// `Down` from the last full stride lands on the last item.
pub open spec fn moved(selected: int, count: int, per_row: int, direction: Direction) -> int {
    if count <= 0 {
        selected
    } else {
        match direction {
            Direction::Up => if selected >= per_row {
                selected - per_row
            } else {
                selected
            },
            Direction::Down => if selected + per_row < count {
                selected + per_row
            } else {
                count - 1
            },
            Direction::Left => if selected > 0 {
                selected - 1
            } else {
                selected
            },
            Direction::Right => if selected + 1 < count {
                selected + 1
            } else {
                selected
            },
        }
    }
}

/// Computes [`moved`] without overflow for every `usize` input.
pub fn move_index(selected: usize, count: usize, per_row: usize, direction: Direction) -> (target:
    usize)
    ensures
        target == moved(selected as int, count as int, per_row as int, direction),
{
    if count == 0 {
        return selected;
    }
    match direction {
        Direction::Up => if selected >= per_row {
            selected - per_row
        } else {
            selected
        },
        Direction::Down => {
            // `selected + per_row < count` without forming the sum.
            if selected < count && per_row < count - selected {
                selected + per_row
            } else {
                count - 1
            }
        },
        Direction::Left => if selected > 0 {
            selected - 1
        } else {
            selected
        },
        Direction::Right => if selected < count - 1 {
            selected + 1
        } else {
            selected
        },
    }
}

/// A selection inside the list stays inside it, whatever the move.
pub proof fn lemma_moved_stays_in_list(selected: int, count: int, per_row: int, direction: Direction)
    requires
        0 <= selected < count,
        0 <= per_row,
    ensures
        0 <= moved(selected, count, per_row, direction) < count,
{
}

/// On the last item `Right` changes nothing.
pub proof fn lemma_right_stops_at_last(count: int, per_row: int)
    requires
        0 < count,
    ensures
        moved(count - 1, count, per_row, Direction::Right) == count - 1,
{
}

/// On the first item `Left` changes nothing.
pub proof fn lemma_left_stops_at_first(count: int, per_row: int)
    ensures
        moved(0, count, per_row, Direction::Left) == 0,
{
}

/// `Down` from a cell with no cell a full row below it selects the last item,
/// and never an index past the end.
pub proof fn lemma_down_clamps_to_last(selected: int, count: int, per_row: int)
    requires
        0 < count,
        selected + per_row >= count,
    ensures
        moved(selected, count, per_row, Direction::Down) == count - 1,
{
}

} // verus!
