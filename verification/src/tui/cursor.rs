//! Cursors that wrap round a list.

use vstd::prelude::*;

verus! {

/// One up in a list of `n`, from the top to the bottom.
pub open spec fn up(cursor: int, n: int) -> int {
    if n == 0 {
        cursor
    } else if cursor == 0 {
        n - 1
    } else {
        cursor - 1
    }
}

/// One down in a list of `n`, from the bottom to the top.
pub open spec fn down(cursor: int, n: int) -> int {
    if n == 0 {
        cursor
    } else if cursor + 1 >= n {
        0
    } else {
        cursor + 1
    }
}

/// Inside a list, moving up undoes moving down and the other way round, and the
/// cursor stays inside.
pub proof fn up_and_down_cancel(cursor: int, n: int)
    requires
        0 <= cursor < n,
    ensures
        up(down(cursor, n), n) == cursor,
        down(up(cursor, n), n) == cursor,
        0 <= up(cursor, n) < n,
        0 <= down(cursor, n) < n,
{
}

/// One up in a list of `n`.
pub fn step_up(cursor: usize, n: usize) -> (r: usize)
    ensures
        r == up(cursor as int, n as int),
{
    if n == 0 {
        cursor
    } else if cursor == 0 {
        n - 1
    } else {
        cursor - 1
    }
}

/// One down in a list of `n`.
pub fn step_down(cursor: usize, n: usize) -> (r: usize)
    ensures
        r == down(cursor as int, n as int),
{
    if n == 0 {
        cursor
    } else if cursor >= n - 1 {
        0
    } else {
        cursor + 1
    }
}

/// A cursor goes up and down by one, and round at either end.
pub proof fn cursors_go_round(cursor: int, n: int)
    requires
        0 <= cursor < n,
    ensures
        cursor > 0 ==> up(cursor, n) == cursor - 1,
        up(0, n) == n - 1,
        cursor < n - 1 ==> down(cursor, n) == cursor + 1,
        down(n - 1, n) == 0,
        up(cursor, 0) == cursor,
        down(cursor, 0) == cursor,
{
}

} // verus!
