use vstd::prelude::*;
use crate::errors::BLiteError;
use vstd::arithmetic::div_mod::{lemma_fundamental_div_mod, lemma_mod_multiples_basic};

verus! {

/// `addr` rounded up to the next multiple of `align`.
pub open spec fn align_up_spec(addr: int, align: int) -> int {
    if addr % align == 0 {
        addr
    } else {
        addr + (align - addr % align)
    }
}

/// Where an allocation of `size` bytes aligned to `align` starts when the
/// candidate address is `addr`, if it ends no later than `end`.
pub open spec fn placement(addr: int, size: int, align: int, end: int) -> Option<int> {
    let start = align_up_spec(addr, align);
    if start + size <= end {
        Some(start)
    } else {
        None
    }
}

/// The cursor after the requests `(size, align)` of `reqs`, made in order
/// from `cursor`, each placed at the next address aligned for it.
pub open spec fn cursor_after(cursor: int, reqs: Seq<(usize, usize)>) -> int
    decreases reqs.len(),
{
    if reqs.len() == 0 {
        cursor
    } else {
        align_up_spec(cursor_after(cursor, reqs.drop_last()), reqs.last().1 as int) + reqs.last().0
    }
}

/// Where request `k` of `reqs` starts.
pub open spec fn start_of(cursor: int, reqs: Seq<(usize, usize)>, k: int) -> int {
    align_up_spec(cursor_after(cursor, reqs.take(k)), reqs[k].1 as int)
}

pub proof fn lemma_align_up(x: int, a: int)
    requires
        x >= 0,
        a > 0,
    ensures
        x <= align_up_spec(x, a) < x + a,
        align_up_spec(x, a) % a == 0,
{
    lemma_fundamental_div_mod(x, a);
    let q = x / a;
    let r = x % a;
    if r != 0 {
        assert(x + (a - r) == a * (q + 1)) by (nonlinear_arith)
            requires x == a * q + r;
        lemma_mod_multiples_basic(q + 1, a);
        assert((q + 1) * a == a * (q + 1)) by (nonlinear_arith);
    }
}

proof fn lemma_cursor_after_step(cursor: int, reqs: Seq<(usize, usize)>, k: int)
    requires
        0 <= k < reqs.len(),
    ensures
        cursor_after(cursor, reqs.take(k + 1)) == start_of(cursor, reqs, k) + reqs[k].0,
{
    assert(reqs.take(k + 1).drop_last() =~= reqs.take(k));
}

proof fn lemma_cursor_after_monotone(cursor: int, reqs: Seq<(usize, usize)>, j: int, k: int)
    requires
        cursor >= 0,
        0 <= j <= k <= reqs.len(),
        forall|i: int| 0 <= i < reqs.len() ==> (#[trigger] reqs[i]).1 > 0,
    ensures
        cursor <= cursor_after(cursor, reqs.take(j)) <= cursor_after(cursor, reqs.take(k)),
    decreases k,
{
    if k == 0 {
        assert(reqs.take(0) =~= Seq::<(usize, usize)>::empty());
    } else if j == k {
        lemma_cursor_after_monotone(cursor, reqs, j - 1, k - 1);
        lemma_cursor_after_step(cursor, reqs, k - 1);
        lemma_align_up(cursor_after(cursor, reqs.take(k - 1)), reqs[k - 1].1 as int);
    } else {
        lemma_cursor_after_monotone(cursor, reqs, j, k - 1);
        lemma_cursor_after_step(cursor, reqs, k - 1);
        lemma_align_up(cursor_after(cursor, reqs.take(k - 1)), reqs[k - 1].1 as int);
    }
}

/// When the requests of `reqs`, made in order from `cursor`, end by `end`
/// with every alignment honoured, each of them succeeds, each region is
/// aligned as asked, and no two regions share a byte.
pub proof fn lemma_allocations_disjoint_and_aligned(cursor: int, end: int, reqs: Seq<(usize, usize)>)
    requires
        cursor >= 0,
        forall|i: int| 0 <= i < reqs.len() ==> (#[trigger] reqs[i]).1 > 0,
        cursor_after(cursor, reqs) <= end,
    ensures
        forall|k: int| 0 <= k < reqs.len() ==> placement(cursor_after(cursor, reqs.take(k)), reqs[k].0 as int, reqs[k].1 as int, end)
            == Some(#[trigger] start_of(cursor, reqs, k)),
        forall|k: int| 0 <= k < reqs.len() ==> #[trigger] start_of(cursor, reqs, k) % (reqs[k].1 as int) == 0,
        forall|j: int, k: int| 0 <= j < k < reqs.len()
            ==> #[trigger] start_of(cursor, reqs, j) + reqs[j].0 <= #[trigger] start_of(cursor, reqs, k),
{
    assert(reqs.take(reqs.len() as int) =~= reqs);
    assert forall|k: int| 0 <= k < reqs.len() implies placement(cursor_after(cursor, reqs.take(k)), reqs[k].0 as int, reqs[k].1 as int, end)
        == Some(#[trigger] start_of(cursor, reqs, k)) by {
        lemma_cursor_after_step(cursor, reqs, k);
        lemma_cursor_after_monotone(cursor, reqs, k + 1, reqs.len() as int);
    }
    assert forall|k: int| 0 <= k < reqs.len() implies #[trigger] start_of(cursor, reqs, k) % (reqs[k].1 as int) == 0 by {
        lemma_cursor_after_monotone(cursor, reqs, k, k);
        lemma_align_up(cursor_after(cursor, reqs.take(k)), reqs[k].1 as int);
    }
    assert forall|j: int, k: int| 0 <= j < k < reqs.len()
        implies #[trigger] start_of(cursor, reqs, j) + reqs[j].0 <= #[trigger] start_of(cursor, reqs, k) by {
        lemma_cursor_after_step(cursor, reqs, j);
        lemma_cursor_after_monotone(cursor, reqs, j + 1, k);
        lemma_align_up(cursor_after(cursor, reqs.take(k)), reqs[k].1 as int);
    }
}

/// An allocator that hands out regions of a fixed arena by moving a cursor
/// forward. Addresses are plain numbers; the arena itself is owned elsewhere.
pub trait ArenaAllocator: Sized {
    spec fn arena_wf(&self) -> bool;

    fn allocate(&mut self, size: usize, align: usize) -> (r: Result<usize, BLiteError>)
        requires
            old(self).arena_wf(),
            align > 0,
        ensures
            final(self).arena_wf(),
    ;

    fn alloc_from_offset(&mut self, offset: usize, size: usize, align: usize) -> (r: Result<usize, BLiteError>)
        requires
            old(self).arena_wf(),
            align > 0,
        ensures
            final(self).arena_wf(),
    ;

    fn description(&self) -> (r: (usize, usize))
        requires
            self.arena_wf(),
    ;
}

#[derive(Debug)]
pub struct BumpArenaAllocator {
    arena_start: usize,
    arena_end: usize,
    arena_size: usize,
    next: usize,
}

impl BumpArenaAllocator {
    pub closed spec fn start(&self) -> int {
        self.arena_start as int
    }

    pub closed spec fn end(&self) -> int {
        self.arena_end as int
    }

    /// The cursor: the first address not yet handed out.
    pub closed spec fn cursor(&self) -> int {
        self.next as int
    }

    pub closed spec fn wf(&self) -> bool {
        &&& self.arena_end == self.arena_start + self.arena_size
        &&& self.arena_start <= self.next <= self.arena_end
    }

    /// The addresses of a well-formed arena are ordered and fit in a `usize`.
    pub proof fn lemma_bounds(&self)
        requires
            self.wf(),
        ensures
            0 <= self.start() <= self.cursor() <= self.end() <= usize::MAX,
    {
    }

    /// An allocator over the `arena_size` bytes that start at `arena_start`.
    pub fn new(arena_start: usize, arena_size: usize) -> (r: Self)
        requires
            arena_start + arena_size <= usize::MAX,
        ensures
            r.wf(),
            r.start() == arena_start,
            r.end() == arena_start + arena_size,
            r.cursor() == arena_start,
    {
        BumpArenaAllocator {
            arena_start,
            arena_end: arena_start + arena_size,
            arena_size,
            next: arena_start,
        }
    }

    /// `addr` rounded up to a multiple of `align`, or `None` when that does
    /// not fit in a `usize`.
    pub fn align_up(addr: usize, align: usize) -> (r: Option<usize>)
        requires
            align > 0,
        ensures
            match r {
                Some(a) => a == align_up_spec(addr as int, align as int),
                None => align_up_spec(addr as int, align as int) > usize::MAX,
            },
    {
        let rem = addr % align;
        if rem == 0 {
            Some(addr)
        } else {
            addr.checked_add(align - rem)
        }
    }

    /// Allocates `size` bytes aligned to `align` at the cursor and moves the
    /// cursor past them.
    pub fn allocate(&mut self, size: usize, align: usize) -> (r: Result<usize, BLiteError>)
        requires
            old(self).wf(),
            align > 0,
        ensures
            final(self).wf(),
            final(self).start() == old(self).start(),
            final(self).end() == old(self).end(),
            0 <= old(self).start() <= old(self).cursor() <= old(self).end() <= usize::MAX,
            match placement(old(self).cursor(), size as int, align as int, old(self).end()) {
                Some(p) => r == Ok::<usize, BLiteError>(p as usize)
                    && final(self).cursor() == p + size,
                None => r == Err::<usize, BLiteError>(BLiteError::FailedToAllocateMemory)
                    && final(self).cursor() == old(self).cursor(),
            },
    {
        match Self::align_up(self.next, align) {
            Some(start) => {
                match start.checked_add(size) {
                    Some(next) => {
                        if next > self.arena_end {
                            Err(BLiteError::FailedToAllocateMemory)
                        } else {
                            self.next = next;
                            Ok(start)
                        }
                    },
                    None => Err(BLiteError::FailedToAllocateMemory),
                }
            },
            None => Err(BLiteError::FailedToAllocateMemory),
        }
    }

    /// Places `size` bytes aligned to `align` at `offset` bytes past the
    /// cursor, leaving the cursor where it is.
    pub fn alloc_from_offset(&mut self, offset: usize, size: usize, align: usize) -> (r: Result<usize, BLiteError>)
        requires
            old(self).wf(),
            align > 0,
        ensures
            *final(self) == *old(self),
            match placement(old(self).cursor() + offset, size as int, align as int, old(self).end()) {
                Some(p) => r == Ok::<usize, BLiteError>(p as usize),
                None => r == Err::<usize, BLiteError>(BLiteError::FailedToAllocateMemory),
            },
    {
        match self.next.checked_add(offset) {
            Some(addr) => {
                match Self::align_up(addr, align) {
                    Some(start) => {
                        match start.checked_add(size) {
                            Some(next) => {
                                if next > self.arena_end {
                                    Err(BLiteError::FailedToAllocateMemory)
                                } else {
                                    Ok(start)
                                }
                            },
                            None => Err(BLiteError::FailedToAllocateMemory),
                        }
                    },
                    None => Err(BLiteError::FailedToAllocateMemory),
                }
            },
            None => Err(BLiteError::FailedToAllocateMemory),
        }
    }

    /// Moves the cursor forward by exactly `offset` bytes.
    pub fn update_offset(&mut self, offset: usize)
        requires
            old(self).wf(),
            old(self).cursor() + offset <= old(self).end(),
        ensures
            final(self).wf(),
            final(self).start() == old(self).start(),
            final(self).end() == old(self).end(),
            final(self).cursor() == old(self).cursor() + offset,
    {
        self.next = self.next + offset;
    }

    /// The arena's capacity in bytes.
    pub fn capacity(&self) -> (r: usize)
        requires
            self.wf(),
        ensures
            r == self.end() - self.start(),
    {
        self.arena_size
    }

    /// The number of bytes before the cursor.
    pub fn used(&self) -> (r: usize)
        requires
            self.wf(),
        ensures
            r == self.cursor() - self.start(),
            self.start() <= self.cursor() <= self.end(),
    {
        self.next - self.arena_start
    }

    /// The capacity and the bytes used, in that order.
    pub fn description(&self) -> (r: (usize, usize))
        requires
            self.wf(),
        ensures
            r.0 == self.end() - self.start(),
            r.1 == self.cursor() - self.start(),
    {
        (self.capacity(), self.used())
    }
}

impl ArenaAllocator for BumpArenaAllocator {
    open spec fn arena_wf(&self) -> bool {
        self.wf()
    }

    fn allocate(&mut self, size: usize, align: usize) -> (r: Result<usize, BLiteError>) {
        BumpArenaAllocator::allocate(self, size, align)
    }

    fn alloc_from_offset(&mut self, offset: usize, size: usize, align: usize) -> (r: Result<usize, BLiteError>) {
        BumpArenaAllocator::alloc_from_offset(self, offset, size, align)
    }

    fn description(&self) -> (r: (usize, usize)) {
        BumpArenaAllocator::description(self)
    }
}

} // verus!
