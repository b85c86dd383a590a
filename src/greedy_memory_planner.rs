use vstd::prelude::*;
use crate::errors::BLiteError;
use crate::micro_allocation_info::{AllocationInfo, Requirement, sort_by_size_desc, lemma_sort_by_size_desc_sorted};
use crate::micro_allocator::BumpArenaAllocator;

verus! {

/// A placed requirement: its byte offset in the shared scratch region and
/// the index of the requirement in the planner's table.
#[derive(Debug, Clone, Copy, PartialEq, Eq, Structural)]
pub struct ListEntry {
    pub offset: usize,
    pub requirement_idx: Option<usize>,
}

impl ListEntry {
    pub fn new(offset: usize, requirement_idx: Option<usize>) -> (r: Self)
        ensures
            r == (ListEntry { offset, requirement_idx }),
    {
        ListEntry { offset, requirement_idx }
    }
}

pub open spec fn complete(r: Requirement) -> bool {
    r.first_time_used.is_some() && r.last_time_used.is_some()
}

/// Two requirements are live at a common node (the intervals are inclusive).
pub open spec fn overlap_in_time(a: Requirement, b: Requirement) -> bool {
    &&& a.first_time_used.unwrap() <= b.last_time_used.unwrap()
    &&& b.first_time_used.unwrap() <= a.last_time_used.unwrap()
}

pub open spec fn ranges_disjoint(a_offset: int, a_size: int, b_offset: int, b_size: int) -> bool {
    a_offset + a_size <= b_offset || b_offset + b_size <= a_offset
}

pub open spec fn req_of(e: ListEntry, reqs: Seq<Requirement>) -> Requirement {
    reqs[e.requirement_idx.unwrap() as int]
}

pub open spec fn end_of(e: ListEntry, reqs: Seq<Requirement>) -> int {
    e.offset + req_of(e, reqs).size
}

/// The total size of the first `n` requirements.
pub open spec fn sum_sizes(reqs: Seq<Requirement>, n: int) -> int
    decreases n,
{
    if n <= 0 {
        0
    } else {
        sum_sizes(reqs, n - 1) + reqs[n - 1].size
    }
}

/// Offset `c` collides with an entry placed for a requirement before `r`
/// that is live at a common node with requirement `r`.
pub open spec fn blocked(entries: Seq<ListEntry>, reqs: Seq<Requirement>, r: int, c: int) -> bool {
    exists|k: int| 0 <= k < entries.len()
        && (entries[k].requirement_idx.unwrap() as int) < r
        && overlap_in_time(req_of(entries[k], reqs), reqs[r])
        && !ranges_disjoint(entries[k].offset as int, req_of(entries[k], reqs).size as int, c, reqs[r].size as int)
}

/// Every entry sits at the lowest offset: each lower offset collides with an
/// entry of an earlier requirement live at a common node.
pub open spec fn lowest_offsets(entries: Seq<ListEntry>, reqs: Seq<Requirement>) -> bool {
    forall|k: int, c: int| 0 <= k < entries.len() && 0 <= c < entries[k].offset
        ==> #[trigger] blocked(entries, reqs, entries[k].requirement_idx.unwrap() as int, c)
}

proof fn lemma_blocked_after_insert(entries: Seq<ListEntry>, reqs: Seq<Requirement>, p: int, e: ListEntry, r: int, c: int)
    requires
        0 <= p <= entries.len(),
        blocked(entries, reqs, r, c),
    ensures
        blocked(entries.insert(p, e), reqs, r, c),
{
    let k = choose|k: int| 0 <= k < entries.len()
        && (entries[k].requirement_idx.unwrap() as int) < r
        && overlap_in_time(req_of(entries[k], reqs), reqs[r])
        && !ranges_disjoint(entries[k].offset as int, req_of(entries[k], reqs).size as int, c, reqs[r].size as int);
    let after = entries.insert(p, e);
    if k < p {
        assert(after[k] == entries[k]);
    } else {
        assert(after[k + 1] == entries[k]);
    }
}

/// The entries place requirements `0..n` of `reqs`, each exactly once.
pub open spec fn entries_cover(entries: Seq<ListEntry>, reqs: Seq<Requirement>, n: int) -> bool {
    &&& entries.len() == n
    &&& n <= reqs.len()
    &&& forall|k: int| 0 <= k < entries.len() ==> entries[k].requirement_idx.is_some()
        && entries[k].requirement_idx.unwrap() < n
    &&& forall|k1: int, k2: int| 0 <= k1 < entries.len() && 0 <= k2 < entries.len() && k1 != k2
        ==> entries[k1].requirement_idx != entries[k2].requirement_idx
    &&& forall|r: int| 0 <= r < n ==> #[trigger] places(entries, r)
}

/// Some entry places requirement `r`.
pub open spec fn places(entries: Seq<ListEntry>, r: int) -> bool {
    exists|k: int| 0 <= k < entries.len() && entries[k].requirement_idx == Some(r as usize)
}

/// No two entries that are live at a common node share a byte.
pub open spec fn no_conflicts(entries: Seq<ListEntry>, reqs: Seq<Requirement>) -> bool {
    forall|k1: int, k2: int|
        0 <= k1 < entries.len() && 0 <= k2 < entries.len() && k1 != k2
            && overlap_in_time(req_of(entries[k1], reqs), req_of(entries[k2], reqs))
            ==> ranges_disjoint(entries[k1].offset as int, req_of(entries[k1], reqs).size as int,
                entries[k2].offset as int, req_of(entries[k2], reqs).size as int)
}

pub open spec fn offsets_sorted(entries: Seq<ListEntry>) -> bool {
    forall|k1: int, k2: int| 0 <= k1 <= k2 < entries.len() ==> entries[k1].offset <= entries[k2].offset
}

pub open spec fn ends_within(entries: Seq<ListEntry>, reqs: Seq<Requirement>, bound: int) -> bool {
    forall|k: int| 0 <= k < entries.len() ==> end_of(entries[k], reqs) <= bound
}

/// The largest end of a placed entry: the size of the shared region.
pub open spec fn high_water(entries: Seq<ListEntry>, reqs: Seq<Requirement>) -> int
    decreases entries.len(),
{
    if entries.len() == 0 {
        0
    } else {
        let h = high_water(entries.drop_last(), reqs);
        let e = end_of(entries.last(), reqs);
        if e > h { e } else { h }
    }
}

/// The number of leading entries whose offset is at most `offset`.
pub open spec fn offset_insert_pos(s: Seq<ListEntry>, offset: usize) -> nat
    decreases s.len(),
{
    if s.len() == 0 {
        0
    } else if s[0].offset <= offset {
        1 + offset_insert_pos(s.drop_first(), offset)
    } else {
        0
    }
}

proof fn lemma_offset_insert_pos(s: Seq<ListEntry>, offset: usize, j: int)
    requires
        0 <= j <= s.len(),
        forall|k: int| 0 <= k < j ==> s[k].offset <= offset,
        j == s.len() || s[j].offset > offset,
    ensures
        offset_insert_pos(s, offset) == j,
    decreases j,
{
    if j > 0 {
        lemma_offset_insert_pos(s.drop_first(), offset, j - 1);
    }
}

/// The placed entries, kept in order of offset, with room for `size` of them.
#[derive(Debug)]
pub struct OffsetList {
    list: Vec<ListEntry>,
    size: usize,
}

impl OffsetList {
    pub closed spec fn entries(&self) -> Seq<ListEntry> {
        self.list@
    }

    pub closed spec fn capacity(&self) -> nat {
        self.size as nat
    }

    pub open spec fn wf(&self) -> bool {
        &&& offsets_sorted(self.entries())
        &&& self.entries().len() <= self.capacity()
    }

    /// An empty list with room for `size` entries.
    pub fn new(size: usize) -> (r: Self)
        ensures
            r.wf(),
            r.entries() == Seq::<ListEntry>::empty(),
            r.capacity() == size,
    {
        OffsetList { list: Vec::new(), size }
    }

    /// The entry with the lowest offset.
    pub fn get_first_entry(&self) -> (r: Option<ListEntry>)
        ensures
            self.entries().len() == 0 ==> r.is_none(),
            self.entries().len() > 0 ==> r == Some(self.entries()[0]),
    {
        if self.list.len() == 0 {
            None
        } else {
            Some(self.list[0])
        }
    }

    /// The number of placed entries.
    pub fn len(&self) -> (r: usize)
        ensures
            r == self.entries().len(),
    {
        self.list.len()
    }

    /// The entry at position `k` in offset order.
    pub fn entry(&self, k: usize) -> (r: ListEntry)
        requires
            k < self.entries().len(),
        ensures
            r == self.entries()[k as int],
    {
        self.list[k]
    }

    /// Appends an entry that lies at or after every placed one and returns
    /// its position.
    pub fn add_entry(&mut self, entry: ListEntry) -> (r: Result<usize, BLiteError>)
        requires
            old(self).wf(),
            old(self).entries().len() == 0 || old(self).entries().last().offset <= entry.offset,
        ensures
            final(self).wf(),
            final(self).capacity() == old(self).capacity(),
            old(self).entries().len() < old(self).capacity() ==> r == Ok::<usize, BLiteError>(old(self).entries().len() as usize)
                && final(self).entries() == old(self).entries().push(entry),
            old(self).entries().len() >= old(self).capacity() ==> r == Err::<usize, BLiteError>(BLiteError::OutOfListEntrySize)
                && final(self).entries() == old(self).entries(),
    {
        if self.list.len() >= self.size {
            return Err(BLiteError::OutOfListEntrySize);
        }
        let idx = self.list.len();
        self.list.push(entry);
        Ok(idx)
    }

    /// Inserts an entry after every placed entry whose offset is at most its own.
    pub fn insert_entry(&mut self, entry: ListEntry) -> (r: Result<(), BLiteError>)
        requires
            old(self).wf(),
        ensures
            final(self).wf(),
            final(self).capacity() == old(self).capacity(),
            old(self).entries().len() < old(self).capacity() ==> r == Ok::<(), BLiteError>(())
                && final(self).entries() == old(self).entries().insert(
                    offset_insert_pos(old(self).entries(), entry.offset) as int, entry),
            old(self).entries().len() >= old(self).capacity() ==> r == Err::<(), BLiteError>(BLiteError::OutOfListEntrySize)
                && final(self).entries() == old(self).entries(),
    {
        if self.list.len() >= self.size {
            return Err(BLiteError::OutOfListEntrySize);
        }
        let mut j: usize = 0;
        while j < self.list.len() && self.list[j].offset <= entry.offset
            invariant
                j <= self.list@.len(),
                forall|k: int| 0 <= k < j ==> self.list@[k].offset <= entry.offset,
            decreases self.list@.len() - j,
        {
            j = j + 1;
        }
        proof {
            lemma_offset_insert_pos(self.list@, entry.offset, j as int);
        }
        let ghost before = self.list@;
        self.list.insert(j, entry);
        proof {
            let after = self.list@;
            assert forall|k1: int, k2: int| 0 <= k1 <= k2 < after.len() implies after[k1].offset <= after[k2].offset by {
                if k2 < j {
                } else if k2 == j {
                    if k1 < j {
                        assert(before[k1].offset <= entry.offset);
                    }
                } else if k1 < j {
                    assert(after[k2] == before[k2 - 1]);
                } else if k1 == j {
                    assert(after[k2] == before[k2 - 1]);
                    assert(before[j as int].offset > entry.offset);
                } else {
                    assert(after[k2] == before[k2 - 1]);
                    assert(after[k1] == before[k1 - 1]);
                }
            }
        }
        Ok(())
    }
}

proof fn lemma_sum_sizes_monotone(reqs: Seq<Requirement>, a: int, b: int)
    requires
        0 <= a <= b,
    ensures
        sum_sizes(reqs, a) <= sum_sizes(reqs, b),
    decreases b - a,
{
    if a < b {
        lemma_sum_sizes_monotone(reqs, a, b - 1);
    }
}

pub proof fn lemma_sum_sizes_prefix(a: Seq<Requirement>, b: Seq<Requirement>, n: int)
    requires
        0 <= n <= a.len(),
        n <= b.len(),
        forall|k: int| 0 <= k < n ==> a[k] == b[k],
    ensures
        sum_sizes(a, n) == sum_sizes(b, n),
    decreases n,
{
    if n > 0 {
        lemma_sum_sizes_prefix(a, b, n - 1);
    }
}

proof fn lemma_sum_sizes_insert(t: Seq<Requirement>, p: int, x: Requirement)
    requires
        0 <= p <= t.len(),
    ensures
        sum_sizes(t.insert(p, x), t.len() as int + 1) == sum_sizes(t, t.len() as int) + x.size,
    decreases t.len(),
{
    let u = t.insert(p, x);
    if p == t.len() {
        lemma_sum_sizes_prefix(u, t, t.len() as int);
    } else {
        let d = t.drop_last();
        lemma_sum_sizes_insert(d, p, x);
        let v = d.insert(p, x);
        assert forall|k: int| 0 <= k < t.len() implies u[k] == v[k] by {}
        lemma_sum_sizes_prefix(u, v, t.len() as int);
        lemma_sum_sizes_prefix(t, d, t.len() - 1);
    }
}

/// Sorting keeps the total size.
pub proof fn lemma_sum_sizes_sorted(s: Seq<Requirement>)
    ensures
        sum_sizes(sort_by_size_desc(s), s.len() as int) == sum_sizes(s, s.len() as int),
    decreases s.len(),
{
    if s.len() > 0 {
        let d = s.drop_last();
        let t = sort_by_size_desc(d);
        lemma_sort_by_size_desc_sorted(d);
        crate::micro_allocation_info::lemma_sort_by_size_desc_sorted(s);
        lemma_sum_sizes_sorted(d);
        let p = crate::micro_allocation_info::insert_pos(t, s.last().size) as int;
        lemma_insert_pos_le(t, s.last().size);
        lemma_sum_sizes_insert(t, p, s.last());
        lemma_sum_sizes_prefix(s, d, d.len() as int);
    }
}

/// After placing requirement `i` at `c`, every invariant of the plan still holds.
proof fn lemma_insert_keeps_plan(entries: Seq<ListEntry>, reqs: Seq<Requirement>, i: int, c: usize)
    requires
        0 <= i <= usize::MAX,
        entries_cover(entries, reqs, i),
        i < reqs.len(),
        no_conflicts(entries, reqs),
        ends_within(entries, reqs, sum_sizes(reqs, i)),
        c <= sum_sizes(reqs, i),
        forall|k: int| 0 <= k < entries.len() && overlap_in_time(req_of(entries[k], reqs), reqs[i])
            ==> ranges_disjoint(entries[k].offset as int, req_of(entries[k], reqs).size as int, c as int, reqs[i].size as int),
        lowest_offsets(entries, reqs),
        forall|c2: int| 0 <= c2 < c ==> #[trigger] blocked(entries, reqs, i, c2),
    ensures
        ({
            let e = ListEntry { offset: c, requirement_idx: Some(i as usize) };
            let after = entries.insert(offset_insert_pos(entries, c) as int, e);
            &&& lowest_offsets(after, reqs)
            &&& entries_cover(after, reqs, i + 1)
            &&& no_conflicts(after, reqs)
            &&& ends_within(after, reqs, sum_sizes(reqs, i + 1))
        }),
{
    let e = ListEntry { offset: c, requirement_idx: Some(i as usize) };
    let p = offset_insert_pos(entries, c) as int;
    assert(p <= entries.len()) by {
        lemma_offset_insert_pos_le(entries, c);
    }
    let after = entries.insert(p, e);
    assert forall|k: int| 0 <= k < after.len() implies
        (k < p ==> after[k] == entries[k]) && (k > p ==> after[k] == entries[k - 1]) by {}
    assert(req_of(e, reqs) == reqs[i]);
    assert forall|k: int| 0 <= k < after.len() implies after[k].requirement_idx.is_some()
        && after[k].requirement_idx.unwrap() < i + 1 by {}
    assert forall|k1: int, k2: int| 0 <= k1 < after.len() && 0 <= k2 < after.len() && k1 != k2
        implies after[k1].requirement_idx != after[k2].requirement_idx by {
        if k1 != p && k2 != p {
            let o1 = if k1 < p { k1 } else { k1 - 1 };
            let o2 = if k2 < p { k2 } else { k2 - 1 };
            assert(after[k1] == entries[o1]);
            assert(after[k2] == entries[o2]);
        } else if k1 == p {
            let o2 = if k2 < p { k2 } else { k2 - 1 };
            assert(after[k2] == entries[o2]);
        } else {
            let o1 = if k1 < p { k1 } else { k1 - 1 };
            assert(after[k1] == entries[o1]);
        }
    }
    assert forall|k1: int, k2: int|
        0 <= k1 < after.len() && 0 <= k2 < after.len() && k1 != k2
            && overlap_in_time(req_of(after[k1], reqs), req_of(after[k2], reqs))
        implies ranges_disjoint(after[k1].offset as int, req_of(after[k1], reqs).size as int,
            after[k2].offset as int, req_of(after[k2], reqs).size as int) by {
        if k1 != p && k2 != p {
            let o1 = if k1 < p { k1 } else { k1 - 1 };
            let o2 = if k2 < p { k2 } else { k2 - 1 };
            assert(after[k1] == entries[o1]);
            assert(after[k2] == entries[o2]);
        } else if k1 == p {
            let o2 = if k2 < p { k2 } else { k2 - 1 };
            assert(after[k2] == entries[o2]);
        } else {
            let o1 = if k1 < p { k1 } else { k1 - 1 };
            assert(after[k1] == entries[o1]);
        }
    }
    assert forall|r: int| 0 <= r < i + 1 implies #[trigger] places(after, r) by {
        if r == i {
            assert(after[p].requirement_idx == Some(r as usize));
        } else {
            assert(places(entries, r));
            let k0 = choose|k: int| 0 <= k < entries.len() && entries[k].requirement_idx == Some(r as usize);
            if k0 < p {
                assert(after[k0] == entries[k0]);
            } else {
                assert(after[k0 + 1] == entries[k0]);
            }
        }
    }
    assert forall|k: int, c2: int| 0 <= k < after.len() && 0 <= c2 < after[k].offset
        implies #[trigger] blocked(after, reqs, after[k].requirement_idx.unwrap() as int, c2) by {
        if k == p {
            lemma_blocked_after_insert(entries, reqs, p, e, i, c2);
        } else {
            let o = if k < p { k } else { k - 1 };
            assert(after[k] == entries[o]);
            assert(blocked(entries, reqs, entries[o].requirement_idx.unwrap() as int, c2));
            lemma_blocked_after_insert(entries, reqs, p, e, entries[o].requirement_idx.unwrap() as int, c2);
        }
    }
    assert(sum_sizes(reqs, i + 1) == sum_sizes(reqs, i) + reqs[i].size);
    assert forall|k: int| 0 <= k < after.len() implies end_of(after[k], reqs) <= sum_sizes(reqs, i + 1) by {
        if k != p {
            let o = if k < p { k } else { k - 1 };
            assert(after[k] == entries[o]);
        }
    }
}

proof fn lemma_insert_pos_le(s: Seq<Requirement>, size: usize)
    ensures
        crate::micro_allocation_info::insert_pos(s, size) <= s.len(),
    decreases s.len(),
{
    if s.len() > 0 && s[0].size >= size {
        lemma_insert_pos_le(s.drop_first(), size);
    }
}

proof fn lemma_offset_insert_pos_le(s: Seq<ListEntry>, offset: usize)
    ensures
        offset_insert_pos(s, offset) <= s.len(),
    decreases s.len(),
{
    if s.len() > 0 && s[0].offset <= offset {
        lemma_offset_insert_pos_le(s.drop_first(), offset);
    }
}

/// Places every requirement of a table in one shared scratch region, so that
/// requirements live at a common node never share a byte.
#[derive(Debug)]
pub struct GreedyMemoryPlanner {
    allocation_info: AllocationInfo,
    offset_list: OffsetList,
}

impl GreedyMemoryPlanner {
    /// The requirements, in the order in which they are placed.
    pub closed spec fn requirements(&self) -> Seq<Requirement> {
        self.allocation_info.info@
    }

    /// The placed entries, in order of offset.
    pub closed spec fn entries(&self) -> Seq<ListEntry> {
        self.offset_list.entries()
    }

    pub closed spec fn wf(&self) -> bool {
        &&& self.offset_list.wf()
        &&& self.offset_list.capacity() == self.requirements().len()
        &&& forall|i: int| 0 <= i < self.requirements().len() ==> complete(#[trigger] self.requirements()[i])
        &&& sum_sizes(self.requirements(), self.requirements().len() as int) <= usize::MAX
        &&& entries_cover(self.entries(), self.requirements(), self.entries().len() as int)
        &&& no_conflicts(self.entries(), self.requirements())
        &&& lowest_offsets(self.entries(), self.requirements())
        &&& ends_within(self.entries(), self.requirements(), sum_sizes(self.requirements(), self.entries().len() as int))
    }

    /// Every requirement has been placed.
    pub open spec fn planned(&self) -> bool {
        &&& self.wf()
        &&& self.entries().len() == self.requirements().len()
    }

    /// A planner for `allocation_info`, whose requirements must each carry
    /// both a first and a last use and whose sizes must add up within a `usize`.
    pub fn new(allocation_info: AllocationInfo) -> (r: Result<Self, BLiteError>)
        ensures
            match r {
                Ok(p) => p.wf() && p.requirements() == allocation_info.info@
                    && p.entries().len() == 0,
                Err(e) => (e == BLiteError::NotFoundRequirementIdx
                    && exists|i: int| 0 <= i < allocation_info.info@.len()
                        && !complete(#[trigger] allocation_info.info@[i]))
                    || (e == BLiteError::FailedToAllocateMemory
                        && sum_sizes(allocation_info.info@, allocation_info.info@.len() as int) > usize::MAX),
            },
            (forall|i: int| 0 <= i < allocation_info.info@.len() ==> complete(#[trigger] allocation_info.info@[i]))
                && sum_sizes(allocation_info.info@, allocation_info.info@.len() as int) <= usize::MAX
                ==> r.is_ok(),
    {
        let n = allocation_info.info.len();
        let mut total: usize = 0;
        let mut i: usize = 0;
        while i < n
            invariant
                n == allocation_info.info@.len(),
                i <= n,
                total == sum_sizes(allocation_info.info@, i as int),
                forall|k: int| 0 <= k < i ==> complete(#[trigger] allocation_info.info@[k]),
            decreases n - i,
        {
            let r = allocation_info.info[i];
            if r.first_time_used.is_none() || r.last_time_used.is_none() {
                return Err(BLiteError::NotFoundRequirementIdx);
            }
            match total.checked_add(r.size) {
                Some(t) => {
                    total = t;
                },
                None => {
                    proof {
                        lemma_sum_sizes_monotone(allocation_info.info@, i as int + 1, n as int);
                    }
                    return Err(BLiteError::FailedToAllocateMemory);
                },
            }
            i = i + 1;
        }
        Ok(GreedyMemoryPlanner { allocation_info, offset_list: OffsetList::new(n) })
    }

    /// Whether the entry's requirement is live at some node in
    /// `[first_time_used, last_time_used]`.
    fn does_entry_overlap_in_time(&self, entry: ListEntry, first_time_used: usize, last_time_used: usize) -> (r: bool)
        requires
            entry.requirement_idx.is_some(),
            entry.requirement_idx.unwrap() < self.requirements().len(),
            complete(self.requirements()[entry.requirement_idx.unwrap() as int]),
        ensures
            r == (req_of(entry, self.requirements()).first_time_used.unwrap() <= last_time_used
                && first_time_used <= req_of(entry, self.requirements()).last_time_used.unwrap()),
    {
        let req = self.allocation_info.info[entry.requirement_idx.unwrap()];
        if req.first_time_used.unwrap() > last_time_used {
            return false;
        }
        if first_time_used > req.last_time_used.unwrap() {
            return false;
        }
        true
    }

    /// The lowest offset reached by walking the placed entries live together
    /// with `wanted`, in order of offset, and stepping past each one until a
    /// gap of `wanted.size` bytes opens before the next.
    fn next_offset(&self, wanted: Requirement) -> (r: usize)
        requires
            self.wf(),
            complete(wanted),
            self.entries().len() < self.requirements().len(),
            wanted == self.requirements()[self.entries().len() as int],
            sum_sizes(self.requirements(), self.entries().len() as int) + wanted.size <= usize::MAX,
        ensures
            r <= sum_sizes(self.requirements(), self.entries().len() as int),
            forall|c: int| 0 <= c < r ==> #[trigger] blocked(self.entries(), self.requirements(), self.entries().len() as int, c),
            forall|k: int| 0 <= k < self.entries().len() && overlap_in_time(req_of(self.entries()[k], self.requirements()), wanted)
                ==> ranges_disjoint(self.entries()[k].offset as int, req_of(self.entries()[k], self.requirements()).size as int,
                    r as int, wanted.size as int),
    {
        let ghost reqs = self.requirements();
        let ghost entries = self.entries();
        let ghost bound = sum_sizes(reqs, entries.len() as int);
        proof {
            lemma_sum_sizes_monotone(reqs, 0, entries.len() as int);
        }
        let n = self.offset_list.len();
        let mut candidate: usize = 0;
        let mut k: usize = 0;
        let mut found: bool = false;
        while k < n && !found
            invariant
                self.wf(),
                entries == self.entries(),
                reqs == self.requirements(),
                bound == sum_sizes(reqs, entries.len() as int),
                complete(wanted),
                bound + wanted.size <= usize::MAX,
                n == entries.len(),
                k <= n,
                candidate <= bound,
                forall|j: int| 0 <= j < k && overlap_in_time(req_of(entries[j], reqs), wanted)
                    ==> end_of(entries[j], reqs) <= candidate,
                found ==> k < n && overlap_in_time(req_of(entries[k as int], reqs), wanted)
                    && entries[k as int].offset >= candidate + wanted.size,
                entries.len() < reqs.len(),
                wanted == reqs[entries.len() as int],
                forall|c: int| 0 <= c < candidate ==> #[trigger] blocked(entries, reqs, entries.len() as int, c),
            decreases n - k + (if found { 0int } else { 1int }),
        {
            let e = self.offset_list.entry(k);
            proof {
                assert(complete(reqs[e.requirement_idx.unwrap() as int]));
            }
            if self.does_entry_overlap_in_time(e, wanted.first_time_used.unwrap(), wanted.last_time_used.unwrap()) {
                if e.offset >= candidate && e.offset - candidate >= wanted.size {
                    found = true;
                } else {
                    let end = e.offset + self.allocation_info.info[e.requirement_idx.unwrap()].size;
                    proof {
                        assert(e == entries[k as int]);
                        assert((e.requirement_idx.unwrap() as int) < entries.len());
                        assert forall|c: int| 0 <= c < end implies #[trigger] blocked(entries, reqs, entries.len() as int, c) by {
                            if c >= candidate {
                                assert(!ranges_disjoint(entries[k as int].offset as int, req_of(entries[k as int], reqs).size as int,
                                    c, reqs[entries.len() as int].size as int));
                            }
                        }
                    }
                    if end > candidate {
                        candidate = end;
                    }
                    k = k + 1;
                }
            } else {
                k = k + 1;
            }
        }
        proof {
            assert forall|j: int| 0 <= j < entries.len() && overlap_in_time(req_of(entries[j], reqs), wanted)
                implies ranges_disjoint(entries[j].offset as int, req_of(entries[j], reqs).size as int,
                    candidate as int, wanted.size as int) by {
                if j >= k {
                    assert(entries[k as int].offset <= entries[j].offset);
                }
            }
        }
        candidate
    }

    /// Places every requirement, largest first as the table is ordered.
    pub fn calculate_offsets_if_needed(&mut self) -> (r: Result<(), BLiteError>)
        requires
            old(self).wf(),
            old(self).entries().len() == 0,
        ensures
            r.is_ok(),
            final(self).planned(),
            final(self).requirements() == old(self).requirements(),
            entries_cover(final(self).entries(), final(self).requirements(), final(self).requirements().len() as int),
            no_conflicts(final(self).entries(), final(self).requirements()),
            lowest_offsets(final(self).entries(), final(self).requirements()),
    {
        let n = self.allocation_info.info.len();
        if n == 0 {
            return Ok(());
        }
        let ghost reqs = self.requirements();
        proof {
            lemma_sum_sizes_monotone(reqs, 1, n as int);
            assert(sum_sizes(reqs, 0) == 0);
        }
        let first_entry = ListEntry::new(0, Some(0));
        let _ = self.offset_list.add_entry(first_entry);
        proof {
            assert(self.entries() == seq![first_entry]);
            assert(self.entries()[0].requirement_idx == Some(0usize));
            assert(places(self.entries(), 0));
            assert(sum_sizes(reqs, 1) == reqs[0].size);
        }
        let mut i: usize = 1;
        while i < n
            invariant
                self.wf(),
                1 <= i <= n,
                n == reqs.len(),
                self.requirements() == reqs,
                self.entries().len() == i,
            decreases n - i,
        {
            let wanted = self.allocation_info.info[i];
            proof {
                assert(complete(reqs[i as int]));
                lemma_sum_sizes_monotone(reqs, i as int + 1, n as int);
            }
            proof {
                assert(self.entries().len() == i);
            }
            let offset = self.next_offset(wanted);
            proof {
                lemma_insert_keeps_plan(self.entries(), reqs, i as int, offset);
            }
            let _ = self.offset_list.insert_entry(ListEntry::new(offset, Some(i)));
            i = i + 1;
        }
        Ok(())
    }

    /// The number of requirements in the table.
    pub fn num_requirements(&self) -> (r: usize)
        ensures
            r == self.requirements().len(),
    {
        self.allocation_info.info.len()
    }

    /// The placed entry at position `k` in order of offset.
    pub fn entry(&self, k: usize) -> (r: ListEntry)
        requires
            k < self.entries().len(),
        ensures
            r == self.entries()[k as int],
    {
        self.offset_list.entry(k)
    }

    /// The requirement at position `i` of the table.
    pub fn requirement(&self, i: usize) -> (r: Requirement)
        requires
            i < self.requirements().len(),
        ensures
            r == self.requirements()[i as int],
    {
        self.allocation_info.info[i]
    }

    /// The size of the shared region: the largest `offset + size` placed.
    pub fn high_water_mark(&self) -> (r: usize)
        requires
            self.wf(),
        ensures
            r == high_water(self.entries(), self.requirements()),
    {
        let ghost reqs = self.requirements();
        let ghost entries = self.entries();
        let n = self.offset_list.len();
        let mut max_offset: usize = 0;
        let mut k: usize = 0;
        proof {
            lemma_sum_sizes_monotone(reqs, entries.len() as int, reqs.len() as int);
        }
        while k < n
            invariant
                self.wf(),
                forall|j: int| 0 <= j < n ==> end_of(entries[j], reqs) <= usize::MAX,
                entries == self.entries(),
                reqs == self.requirements(),
                n == entries.len(),
                k <= n,
                max_offset == high_water(entries.take(k as int), reqs),
            decreases n - k,
        {
            let e = self.offset_list.entry(k);
            let end = e.offset + self.allocation_info.info[e.requirement_idx.unwrap()].size;
            if max_offset < end {
                max_offset = end;
            }
            proof {
                assert(entries.take(k as int + 1).drop_last() =~= entries.take(k as int));
            }
            k = k + 1;
        }
        proof {
            assert(entries.take(n as int) =~= entries);
        }
        max_offset
    }

    /// Gives every placed requirement its address, `offset` bytes past the
    /// arena's cursor, then moves the cursor past the whole shared region.
    /// Returns the tensor index and address of each entry in order of offset.
    pub fn allocate_tensors_following_plan(&self, allocator: &mut BumpArenaAllocator) -> (r: Result<Vec<(usize, usize)>, BLiteError>)
        requires
            self.planned(),
            old(allocator).wf(),
        ensures
            final(allocator).wf(),
            final(allocator).start() == old(allocator).start(),
            final(allocator).end() == old(allocator).end(),
            old(allocator).cursor() + high_water(self.entries(), self.requirements()) <= old(allocator).end() ==> {
                &&& r.is_ok()
                &&& r.unwrap()@.len() == self.entries().len()
                &&& forall|k: int| 0 <= k < self.entries().len() ==> #[trigger] r.unwrap()@[k]
                    == (req_of(self.entries()[k], self.requirements()).idx,
                        (old(allocator).cursor() + self.entries()[k].offset) as usize)
                &&& final(allocator).cursor() == old(allocator).cursor() + high_water(self.entries(), self.requirements())
            },
            old(allocator).cursor() + high_water(self.entries(), self.requirements()) > old(allocator).end() ==> {
                &&& r == Err::<Vec<(usize, usize)>, BLiteError>(BLiteError::FailedToAllocateMemory)
                &&& *final(allocator) == *old(allocator)
            },
    {
        let ghost reqs = self.requirements();
        let ghost entries = self.entries();
        let max_offset = self.high_water_mark();
        let room = allocator.capacity() - allocator.used();
        if max_offset > room {
            return Err(BLiteError::FailedToAllocateMemory);
        }
        proof {
            lemma_high_water_bounds(entries, reqs);
        }
        let n = self.offset_list.len();
        let mut placed: Vec<(usize, usize)> = Vec::new();
        let mut k: usize = 0;
        while k < n
            invariant
                self.planned(),
                entries == self.entries(),
                reqs == self.requirements(),
                n == entries.len(),
                k <= n,
                allocator.wf(),
                *allocator == *old(allocator),
                max_offset == high_water(entries, reqs),
                allocator.cursor() + max_offset <= allocator.end(),
                forall|j: int| 0 <= j < n ==> end_of(entries[j], reqs) <= max_offset,
                placed@.len() == k,
                forall|j: int| 0 <= j < k ==> #[trigger] placed@[j]
                    == (req_of(entries[j], reqs).idx, (allocator.cursor() + entries[j].offset) as usize),
            decreases n - k,
        {
            let e = self.offset_list.entry(k);
            let req = self.allocation_info.info[e.requirement_idx.unwrap()];
            let addr = match allocator.alloc_from_offset(e.offset, req.size, 1) {
                Ok(a) => a,
                Err(err) => {
                    return Err(err);
                },
            };
            placed.push((req.idx, addr));
            k = k + 1;
        }
        allocator.update_offset(max_offset);
        Ok(placed)
    }
}

proof fn lemma_high_water_bounds(entries: Seq<ListEntry>, reqs: Seq<Requirement>)
    ensures
        high_water(entries, reqs) >= 0,
        forall|k: int| 0 <= k < entries.len() ==> end_of(entries[k], reqs) <= high_water(entries, reqs),
    decreases entries.len(),
{
    if entries.len() > 0 {
        lemma_high_water_bounds(entries.drop_last(), reqs);
        assert forall|k: int| 0 <= k < entries.len() implies end_of(entries[k], reqs) <= high_water(entries, reqs) by {
            if k < entries.len() - 1 {
                assert(entries[k] == entries.drop_last()[k]);
            }
        }
    }
}

proof fn lemma_high_water_within(entries: Seq<ListEntry>, reqs: Seq<Requirement>, bound: int)
    requires
        bound >= 0,
        ends_within(entries, reqs, bound),
    ensures
        high_water(entries, reqs) <= bound,
    decreases entries.len(),
{
    if entries.len() > 0 {
        assert(ends_within(entries.drop_last(), reqs, bound)) by {
            assert forall|k: int| 0 <= k < entries.drop_last().len() implies end_of(entries.drop_last()[k], reqs) <= bound by {
                assert(entries.drop_last()[k] == entries[k]);
            }
        }
        lemma_high_water_within(entries.drop_last(), reqs, bound);
    }
}

/// In a finished plan no two requirements live at a common node share a byte,
/// every requirement ends within the shared region, and that region is no
/// larger than all the requirements laid end to end.
pub proof fn lemma_plan_reuses_without_conflict(planner: GreedyMemoryPlanner)
    requires
        planner.planned(),
    ensures
        no_conflicts(planner.entries(), planner.requirements()),
        forall|k: int| 0 <= k < planner.entries().len()
            ==> end_of(planner.entries()[k], planner.requirements()) <= high_water(planner.entries(), planner.requirements()),
        high_water(planner.entries(), planner.requirements())
            <= sum_sizes(planner.requirements(), planner.requirements().len() as int),
{
    lemma_high_water_bounds(planner.entries(), planner.requirements());
    lemma_sum_sizes_monotone(planner.requirements(), 0, planner.requirements().len() as int);
    lemma_high_water_within(planner.entries(), planner.requirements(),
        sum_sizes(planner.requirements(), planner.requirements().len() as int));
}

/// A planner that places the tensors of a graph in the arena.
pub trait MemoryPlanner: Sized {
    /// The planner holds its requirements and has placed none of them yet.
    spec fn ready(&self) -> bool;

    /// Places every requirement and commits the plan to the arena, returning
    /// each placed tensor's index and address.
    fn commit_memory_plan(&mut self, allocator: &mut BumpArenaAllocator) -> (r: Result<Vec<(usize, usize)>, BLiteError>)
        requires
            old(self).ready(),
            old(allocator).wf(),
        ensures
            final(allocator).wf(),
            final(allocator).start() == old(allocator).start(),
            final(allocator).end() == old(allocator).end(),
    ;
}

impl MemoryPlanner for GreedyMemoryPlanner {
    open spec fn ready(&self) -> bool {
        self.wf() && self.entries().len() == 0
    }

    fn commit_memory_plan(&mut self, allocator: &mut BumpArenaAllocator) -> (r: Result<Vec<(usize, usize)>, BLiteError>) {
        self.calculate_offsets_if_needed()?;
        self.allocate_tensors_following_plan(allocator)
    }
}

/// In a finished plan every requirement of the table has an entry.
pub proof fn lemma_every_requirement_placed(planner: GreedyMemoryPlanner, r: int)
    requires
        planner.planned(),
        0 <= r < planner.requirements().len(),
    ensures
        exists|k: int| 0 <= k < planner.entries().len()
            && #[trigger] planner.entries()[k].requirement_idx == Some(r as usize)
            && req_of(planner.entries()[k], planner.requirements()) == planner.requirements()[r],
{
    assert(places(planner.entries(), r));
}

} // verus!
