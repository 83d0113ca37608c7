//! The sizes that the heap allocator works with: rounding of block and slot sizes, and
//! the schedule by which a failed resize grows the application slot and tries again.
use vstd::prelude::*;

verus! {

/// The granularity of the application slot.
pub const PAGE_SIZE: usize = 4096;

/// How many times a block resize is tried.
pub const REALLOC_ATTEMPTS: usize = 55;

/// How much the slot is grown by after the first failed resize.
pub const INITIAL_GROW_AMOUNT: usize = 4096;

/// The size that a heap block is claimed with: the requested size rounded up to a
/// multiple of four.
pub fn claim_size(size: usize) -> (r: usize)
    requires
        size <= usize::MAX - 3,
    ensures
        r % 4 == 0,
        size <= r < size + 4,
        size % 4 == 0 ==> r == size,
{
    let padded = size + 3;
    let r = padded & !3usize;
    assert((padded & !3usize) % 4 == 0 && padded - 3 <= (padded & !3usize) && (padded
        & !3usize) <= padded) by (bit_vector)
        requires
            padded >= 3,
    ;
    r
}

/// The slot size to ask for when the heap needs `size` more bytes than the slot of
/// `current` bytes: their sum rounded up to a whole number of pages.
pub fn wanted_slot_size(current: usize, size: usize) -> (r: usize)
    requires
        current + size + 4095 <= usize::MAX,
    ensures
        r % PAGE_SIZE == 0,
        current + size <= r < current + size + PAGE_SIZE,
        (current + size) % (PAGE_SIZE as int) == 0 ==> r == current + size,
{
    let total = current + size + 4095;
    let r = total & !4095usize;
    assert((total & !4095usize) % 4096 == 0 && total - 4095 <= (total & !4095usize) && (total
        & !4095usize) <= total) by (bit_vector)
        requires
            total >= 4095,
    ;
    r
}

/// The size of the heap that starts at address `base` and ends before `top`: the space
/// between them rounded down to a multiple of four.
pub fn heap_size(base: usize, top: usize) -> (r: usize)
    requires
        base <= top,
    ensures
        r % 4 == 0,
        r <= top - base < r + 4,
{
    let space = top - base;
    let r = space & !3usize;
    assert((space & !3usize) % 4 == 0 && (space & !3usize) <= space && space < (space & !3usize)
        + 4) by (bit_vector);
    r
}

/// The signed change from one size to another.
pub fn size_change(old_size: usize, new_size: usize) -> (r: isize)
    requires
        old_size <= isize::MAX,
        new_size <= isize::MAX,
    ensures
        r == new_size - old_size,
{
    new_size as isize - old_size as isize
}

/// The signed change from one slot size to another, as the heap is resized by it.
pub fn slot_change(old_slot: usize, new_slot: usize) -> (r: isize)
    requires
        -isize::MAX <= new_slot - old_slot <= isize::MAX,
    ensures
        r == new_slot - old_slot,
{
    if new_slot >= old_slot {
        (new_slot - old_slot) as isize
    } else {
        -((old_slot - new_slot) as isize)
    }
}

/// One growth of the amount: a quarter of it is added.
pub open spec fn grown(amount: nat) -> nat {
    amount + amount / 4
}

/// The amount reached from `amount` after `n` growths.
pub open spec fn grown_times(amount: nat, n: nat) -> nat
    decreases n,
{
    if n == 0 {
        amount
    } else {
        grown_times(grown(amount), (n - 1) as nat)
    }
}

/// How much the slot is grown by after `n` growths: it starts at one page and each
/// growth adds a quarter of it.
pub open spec fn grow_amount_after(n: nat) -> nat {
    grown_times(INITIAL_GROW_AMOUNT as nat, n)
}

/// One more growth is one more application of the step.
proof fn lemma_grown_times_step(amount: nat, n: nat)
    ensures
        grown_times(amount, n + 1) == grown(grown_times(amount, n)),
    decreases n,
{
    reveal_with_fuel(grown_times, 2);
    if n > 0 {
        lemma_grown_times_step(grown(amount), (n - 1) as nat);
    }
}

/// Growing never makes the amount smaller.
proof fn lemma_grown_times_monotone(amount: nat, m: nat, n: nat)
    requires
        m <= n,
    ensures
        grown_times(amount, m) <= grown_times(amount, n),
    decreases n - m,
{
    if m < n {
        lemma_grown_times_monotone(amount, m, (n - 1) as nat);
        lemma_grown_times_step(amount, (n - 1) as nat);
    }
}

/// Growing `m` times and then `n` times is growing `m + n` times.
proof fn lemma_grown_times_add(amount: nat, m: nat, n: nat)
    ensures
        grown_times(grown_times(amount, m), n) == grown_times(amount, m + n),
    decreases m,
{
    if m > 0 {
        lemma_grown_times_add(grown(amount), (m - 1) as nat, n);
        assert(grown(amount) == grown_times(amount, 1)) by {
            reveal_with_fuel(grown_times, 2);
        }
    }
}

/// Five growths at most quadruple an amount, ten at most multiply it by ten.
proof fn lemma_grown_times_five_ten(amount: nat)
    ensures
        grown_times(amount, 5) <= 4 * amount,
        grown_times(amount, 10) <= 10 * amount,
{
    let y1 = grown_times(amount, 1);
    let y2 = grown_times(amount, 2);
    let y3 = grown_times(amount, 3);
    let y4 = grown_times(amount, 4);
    let y5 = grown_times(amount, 5);
    let y6 = grown_times(amount, 6);
    let y7 = grown_times(amount, 7);
    let y8 = grown_times(amount, 8);
    let y9 = grown_times(amount, 9);
    let y10 = grown_times(amount, 10);
    reveal_with_fuel(grown_times, 2);
    lemma_grown_times_step(amount, 0);
    lemma_grown_times_step(amount, 1);
    lemma_grown_times_step(amount, 2);
    lemma_grown_times_step(amount, 3);
    lemma_grown_times_step(amount, 4);
    lemma_grown_times_step(amount, 5);
    lemma_grown_times_step(amount, 6);
    lemma_grown_times_step(amount, 7);
    lemma_grown_times_step(amount, 8);
    lemma_grown_times_step(amount, 9);
    // Each growth adds at most a quarter: 4 * grown(x) <= 5 * x.
    assert(4 * y1 <= 5 * amount);
    assert(4 * y2 <= 5 * y1);
    assert(4 * y3 <= 5 * y2);
    assert(4 * y4 <= 5 * y3);
    assert(4 * y5 <= 5 * y4);
    assert(4 * y6 <= 5 * y5);
    assert(4 * y7 <= 5 * y6);
    assert(4 * y8 <= 5 * y7);
    assert(4 * y9 <= 5 * y8);
    assert(4 * y10 <= 5 * y9);
}

/// The largest amount the schedule reaches within its attempts stays below 2^32.
proof fn lemma_grow_amount_bound(n: nat)
    requires
        n <= REALLOC_ATTEMPTS,
    ensures
        grow_amount_after(n) < 0x1_0000_0000,
{
    let a0 = 4096nat;
    let a10 = grown_times(a0, 10);
    let a20 = grown_times(a10, 10);
    let a30 = grown_times(a20, 10);
    let a40 = grown_times(a30, 10);
    let a50 = grown_times(a40, 10);
    let a55 = grown_times(a50, 5);
    lemma_grown_times_five_ten(a0);
    lemma_grown_times_five_ten(a10);
    lemma_grown_times_five_ten(a20);
    lemma_grown_times_five_ten(a30);
    lemma_grown_times_five_ten(a40);
    lemma_grown_times_five_ten(a50);
    lemma_grown_times_add(a0, 10, 10);
    lemma_grown_times_add(a0, 20, 10);
    lemma_grown_times_add(a0, 30, 10);
    lemma_grown_times_add(a0, 40, 10);
    lemma_grown_times_add(a0, 50, 5);
    assert(a55 <= 1638400000);
    lemma_grown_times_monotone(a0, n, 55);
}

/// What the allocator does after a block resize.
#[derive(PartialEq, Eq, Structural)]
pub enum ReallocAction {
    /// Return the block that the resize gave (null when it failed).
    Finish,
    /// Grow the slot by this many bytes, then decide again.
    GrowHeap(usize),
}

/// Where a block resize stands: how many times the slot was grown for it, and by how
/// much it is grown next.
pub struct ReallocRetry {
    growths: usize,
    grow_amount: usize,
}

impl ReallocRetry {
    /// How many times the slot was grown.
    pub closed spec fn spec_growths(&self) -> nat {
        self.growths as nat
    }

    /// How much the slot is grown by next.
    pub closed spec fn spec_grow_amount(&self) -> nat {
        self.grow_amount as nat
    }

    /// What holds of every state the schedule reaches.
    pub closed spec fn wf(&self) -> bool {
        &&& self.growths <= REALLOC_ATTEMPTS
        &&& self.grow_amount == grow_amount_after(self.growths as nat)
    }

    /// The state before the first resize: no growth yet, one page to grow by.
    pub fn new() -> (r: ReallocRetry)
        ensures
            r.wf(),
            r.spec_growths() == 0,
            r.spec_grow_amount() == INITIAL_GROW_AMOUNT,
    {
        ReallocRetry { growths: 0, grow_amount: INITIAL_GROW_AMOUNT }
    }

    /// What to do after a resize that `succeeded` or not, for a block that changes size
    /// by `size_change`: grow the slot when the resize failed for a block that grows,
    /// otherwise finish.
    pub fn after_resize(&self, succeeded: bool, size_change: isize) -> (r: ReallocAction)
        ensures
            !succeeded && size_change > 0 ==> r == ReallocAction::GrowHeap(
                self.spec_grow_amount() as usize,
            ),
            succeeded || size_change <= 0 ==> r == ReallocAction::Finish,
    {
        if !succeeded && size_change > 0 {
            ReallocAction::GrowHeap(self.grow_amount)
        } else {
            ReallocAction::Finish
        }
    }

    /// Records a slot growth that `grew` the slot or not, and says whether to try the
    /// resize again: only after a growth, and only while attempts are left.
    pub fn after_grow(&mut self, grew: bool) -> (r: bool)
        requires
            old(self).wf(),
            old(self).spec_growths() < REALLOC_ATTEMPTS,
        ensures
            final(self).wf(),
            !grew ==> !r && *final(self) == *old(self),
            grew ==> final(self).spec_growths() == old(self).spec_growths() + 1
                && final(self).spec_grow_amount() == old(self).spec_grow_amount() + old(
                self,
            ).spec_grow_amount() / 4 && r == (final(self).spec_growths() < REALLOC_ATTEMPTS),
    {
        if !grew {
            return false;
        }
        proof {
            lemma_grow_amount_bound((self.growths + 1) as nat);
            lemma_grown_times_step(INITIAL_GROW_AMOUNT as nat, self.growths as nat);
        }
        self.grow_amount = self.grow_amount + self.grow_amount / 4;
        self.growths = self.growths + 1;
        self.growths < REALLOC_ATTEMPTS
    }
}

} // verus!
