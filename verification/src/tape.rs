use vstd::prelude::*;

verus! {

/// The number of cells of a tape, and of slots of a function table.
pub const TAPE_LEN: usize = 30000;

/// A cell after `Increment`: one more, and 255 becomes 0.
pub open spec fn incremented(c: u8) -> u8 {
    if c == 255 {
        0
    } else {
        (c + 1) as u8
    }
}

/// A cell after `Decrement`: one less, and 0 becomes 255.
pub open spec fn decremented(c: u8) -> u8 {
    if c == 0 {
        255
    } else {
        (c - 1) as u8
    }
}

/// The position left of `p` on the circular tape.
pub open spec fn left_of(p: int) -> int {
    if p == 0 {
        TAPE_LEN - 1
    } else {
        p - 1
    }
}

/// The position right of `p` on the circular tape.
pub open spec fn right_of(p: int) -> int {
    if p == TAPE_LEN - 1 {
        0
    } else {
        p + 1
    }
}

/// `c` after `n` increments.
pub open spec fn incremented_times(c: u8, n: nat) -> u8
    decreases n,
{
    if n == 0 {
        c
    } else {
        incremented(incremented_times(c, (n - 1) as nat))
    }
}

/// `c` after `n` decrements.
pub open spec fn decremented_times(c: u8, n: nat) -> u8
    decreases n,
{
    if n == 0 {
        c
    } else {
        decremented(decremented_times(c, (n - 1) as nat))
    }
}

/// Repeated increments add modulo 256.
pub proof fn lemma_incremented_times(c: u8, n: nat)
    ensures
        incremented_times(c, n) == (c + n) % 256,
    decreases n,
{
    if n > 0 {
        lemma_incremented_times(c, (n - 1) as nat);
    }
}

/// Repeated decrements subtract modulo 256.
pub proof fn lemma_decremented_times(c: u8, n: nat)
    ensures
        decremented_times(c, n) == (c - n) % 256,
    decreases n,
{
    if n > 0 {
        lemma_decremented_times(c, (n - 1) as nat);
    }
}

/// 256 increments bring every cell back to its value.
pub proof fn lemma_increment_cycle(c: u8)
    ensures
        incremented_times(c, 256) == c,
{
    lemma_incremented_times(c, 256);
}

/// 256 decrements bring every cell back to its value.
pub proof fn lemma_decrement_cycle(c: u8)
    ensures
        decremented_times(c, 256) == c,
{
    lemma_decremented_times(c, 256);
}

/// A move right undoes a move left and the other way round, at the two ends
/// of the tape as elsewhere.
pub proof fn lemma_moves_cancel(p: int)
    requires
        0 <= p < TAPE_LEN,
    ensures
        right_of(left_of(p)) == p,
        left_of(right_of(p)) == p,
        0 <= left_of(p) < TAPE_LEN,
        0 <= right_of(p) < TAPE_LEN,
{
}

/// What `Random` may store between the neighbours `left` and `right`: a value
/// of `[left, right]` where `right > left`, else one of `[left, 255]` or of
/// `[0, right]`.
pub open spec fn random_allowed(left: u8, right: u8, v: u8) -> bool {
    if right > left {
        left <= v <= right
    } else {
        v >= left || v <= right
    }
}

/// The second half of `Random` where `left >= right`: the coin picks one of
/// the two draws, 0 the one from `[left, 255]`.
pub open spec fn coin_choice(high: u8, low: u8, coin: u8) -> u8 {
    if coin == 0 {
        high
    } else {
        low
    }
}

/// A cell after `Increment`.
pub fn increment(c: u8) -> (r: u8)
    ensures
        r == incremented(c),
{
    if c == 255 {
        0
    } else {
        c + 1
    }
}

/// A cell after `Decrement`.
pub fn decrement(c: u8) -> (r: u8)
    ensures
        r == decremented(c),
{
    if c == 0 {
        255
    } else {
        c - 1
    }
}

/// The memory pointer after `MoveLeft`.
pub fn move_left(p: usize) -> (r: usize)
    requires
        p < TAPE_LEN,
    ensures
        r == left_of(p as int),
        r < TAPE_LEN,
{
    if p == 0 {
        TAPE_LEN - 1
    } else {
        p - 1
    }
}

/// The memory pointer after `MoveRight`.
pub fn move_right(p: usize) -> (r: usize)
    requires
        p < TAPE_LEN,
    ensures
        r == right_of(p as int),
        r < TAPE_LEN,
{
    if p == TAPE_LEN - 1 {
        0
    } else {
        p + 1
    }
}

/// Picks one of two draws by a coin.
pub fn pick_by_coin(high: u8, low: u8, coin: u8) -> (r: u8)
    ensures
        r == coin_choice(high, low, coin),
{
    if coin == 0 {
        high
    } else {
        low
    }
}

} // verus!
