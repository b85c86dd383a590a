use vstd::prelude::*;
use crate::errors::BLiteError;

verus! {

/// What the planner knows of one tensor: its index, its size in bytes, the
/// first node that writes it, the last node that reads it, and whether it
/// still needs a region.
#[derive(Debug, Clone, Copy, PartialEq, Eq, Structural)]
pub struct Requirement {
    pub idx: usize,
    pub size: usize,
    pub first_time_used: Option<usize>,
    pub last_time_used: Option<usize>,
    pub need_allocation: bool,
}

pub open spec fn empty_requirement() -> Requirement {
    Requirement { idx: 0, size: 0, first_time_used: None, last_time_used: None, need_allocation: false }
}

/// The record after a node that writes the tensor: the first writer wins.
pub open spec fn after_first_use(cur: Requirement, req: Requirement) -> Requirement {
    if cur.first_time_used.is_none() && req.first_time_used.is_some() {
        Requirement {
            size: req.size,
            idx: req.idx,
            first_time_used: req.first_time_used,
            need_allocation: req.need_allocation,
            ..cur
        }
    } else {
        cur
    }
}

/// The record after a node that reads the tensor: later readers win.
pub open spec fn after_last_use(cur: Requirement, req: Requirement) -> Requirement {
    Requirement {
        size: req.size,
        idx: req.idx,
        last_time_used: req.last_time_used,
        need_allocation: req.need_allocation,
        ..cur
    }
}

impl Requirement {
    pub fn new(
        size: usize,
        idx: usize,
        first_time_used: Option<usize>,
        last_time_used: Option<usize>,
        need_allocation: bool,
    ) -> (r: Self)
        ensures
            r == (Requirement { idx, size, first_time_used, last_time_used, need_allocation }),
    {
        Requirement { idx, size, first_time_used, last_time_used, need_allocation }
    }

    /// Takes `req` as the first use unless a first use is already recorded.
    pub fn update_first_time_used(&mut self, req: Requirement)
        ensures
            *final(self) == after_first_use(*old(self), req),
    {
        if self.first_time_used.is_none() && req.first_time_used.is_some() {
            self.size = req.size;
            self.idx = req.idx;
            self.first_time_used = req.first_time_used;
            self.need_allocation = req.need_allocation;
        }
    }

    /// Takes `req` as the last use so far.
    pub fn update_last_time_used(&mut self, req: Requirement)
        ensures
            *final(self) == after_last_use(*old(self), req),
    {
        self.size = req.size;
        self.idx = req.idx;
        self.last_time_used = req.last_time_used;
        self.need_allocation = req.need_allocation;
    }
}

/// The number of leading entries of `s` whose size is at least `size`.
pub open spec fn insert_pos(s: Seq<Requirement>, size: usize) -> nat
    decreases s.len(),
{
    if s.len() == 0 {
        0
    } else if s[0].size >= size {
        1 + insert_pos(s.drop_first(), size)
    } else {
        0
    }
}

/// `s` sorted by descending size, equal sizes keeping their order: each
/// element goes in after every earlier one that is at least as large.
pub open spec fn sort_by_size_desc(s: Seq<Requirement>) -> Seq<Requirement>
    decreases s.len(),
{
    if s.len() == 0 {
        Seq::empty()
    } else {
        let t = sort_by_size_desc(s.drop_last());
        t.insert(insert_pos(t, s.last().size) as int, s.last())
    }
}

pub open spec fn is_sorted_desc(s: Seq<Requirement>) -> bool {
    forall|i: int, j: int| 0 <= i < j < s.len() ==> s[i].size >= s[j].size
}

proof fn lemma_insert_pos(s: Seq<Requirement>, size: usize, j: int)
    requires
        0 <= j <= s.len(),
        forall|k: int| 0 <= k < j ==> s[k].size >= size,
        j == s.len() || s[j].size < size,
    ensures
        insert_pos(s, size) == j,
    decreases j,
{
    if j > 0 {
        lemma_insert_pos(s.drop_first(), size, j - 1);
    }
}

proof fn lemma_insert_pos_bounds(s: Seq<Requirement>, size: usize)
    ensures
        insert_pos(s, size) <= s.len(),
        forall|k: int| 0 <= k < insert_pos(s, size) ==> s[k].size >= size,
        insert_pos(s, size) == s.len() || s[insert_pos(s, size) as int].size < size,
    decreases s.len(),
{
    if s.len() > 0 && s[0].size >= size {
        lemma_insert_pos_bounds(s.drop_first(), size);
        assert forall|k: int| 0 <= k < insert_pos(s, size) implies s[k].size >= size by {
            if k > 0 {
                assert(s[k] == s.drop_first()[k - 1]);
            }
        }
    }
}

/// The stable descending sort really is ordered by size.
pub proof fn lemma_sort_by_size_desc_sorted(s: Seq<Requirement>)
    ensures
        is_sorted_desc(sort_by_size_desc(s)),
        sort_by_size_desc(s).len() == s.len(),
    decreases s.len(),
{
    if s.len() > 0 {
        let t = sort_by_size_desc(s.drop_last());
        lemma_sort_by_size_desc_sorted(s.drop_last());
        let x = s.last();
        let p = insert_pos(t, x.size) as int;
        lemma_insert_pos_bounds(t, x.size);
        let u = t.insert(p, x);
        assert forall|i: int, j: int| 0 <= i < j < u.len() implies u[i].size >= u[j].size by {
            if j < p {
            } else if j == p {
                assert(t[i].size >= x.size);
            } else if i < p {
                assert(u[j] == t[j - 1]);
                assert(t[i].size >= t[j - 1].size);
            } else if i == p {
                assert(u[j] == t[j - 1]);
                assert(t[p].size < x.size);
                if j - 1 > p {
                    assert(t[p].size >= t[j - 1].size);
                }
            } else {
                assert(u[j] == t[j - 1]);
                assert(u[i] == t[i - 1]);
            }
        }
    }
}

/// The planner's table of requirements, filled in order up to `cur_idx`.
#[derive(Debug)]
pub struct AllocationInfo {
    pub info: Vec<Requirement>,
    pub cur_idx: usize,
}

impl AllocationInfo {
    /// A table of `size` empty requirements.
    pub fn new(size: usize) -> (r: Self)
        ensures
            r.info@ == Seq::new(size as nat, |_i: int| empty_requirement()),
            r.cur_idx == 0,
    {
        let mut info: Vec<Requirement> = Vec::new();
        let mut i: usize = 0;
        while i < size
            invariant
                i <= size,
                info@ == Seq::new(i as nat, |_i: int| empty_requirement()),
            decreases size - i,
        {
            info.push(Requirement::new(0, 0, None, None, false));
            i = i + 1;
            assert(info@ =~= Seq::new(i as nat, |_i: int| empty_requirement()));
        }
        AllocationInfo { info, cur_idx: 0 }
    }

    /// Writes `req` into the next free slot.
    pub fn add_info(&mut self, req: &Requirement) -> (r: Result<(), BLiteError>)
        ensures
            old(self).cur_idx < old(self).info.len() ==> r == Ok::<(), BLiteError>(())
                && final(self).info@ == old(self).info@.update(old(self).cur_idx as int, *req)
                && final(self).cur_idx == old(self).cur_idx + 1,
            old(self).cur_idx >= old(self).info.len() ==> r == Err::<(), BLiteError>(BLiteError::InfoIndexOutOfBound)
                && *final(self) == *old(self),
    {
        if self.cur_idx >= self.info.len() {
            return Err(BLiteError::InfoIndexOutOfBound);
        }
        self.info.set(self.cur_idx, *req);
        self.cur_idx = self.cur_idx + 1;
        Ok(())
    }

    /// Records a write of tensor slot `idx` by the node in `req`.
    pub fn update_first_time_used(&mut self, idx: usize, req: Requirement)
        requires
            idx < old(self).info.len(),
        ensures
            final(self).info@ == old(self).info@.update(idx as int, after_first_use(old(self).info@[idx as int], req)),
            final(self).cur_idx == old(self).cur_idx,
    {
        let mut cur_info = self.info[idx];
        cur_info.update_first_time_used(req);
        self.info.set(idx, cur_info);
    }

    /// Records a read of tensor slot `idx` by the node in `req`.
    pub fn update_last_time_used(&mut self, idx: usize, req: Requirement)
        requires
            idx < old(self).info.len(),
        ensures
            final(self).info@ == old(self).info@.update(idx as int, after_last_use(old(self).info@[idx as int], req)),
            final(self).cur_idx == old(self).cur_idx,
    {
        let mut cur_info = self.info[idx];
        cur_info.update_last_time_used(req);
        self.info.set(idx, cur_info);
    }

    /// Sorts the table by descending size; equal sizes keep their order.
    pub fn in_place_reverse_sort(&mut self)
        ensures
            final(self).info@ == sort_by_size_desc(old(self).info@),
            final(self).cur_idx == old(self).cur_idx,
    {
        let n = self.info.len();
        let mut sorted: Vec<Requirement> = Vec::new();
        let mut i: usize = 0;
        while i < n
            invariant
                n == self.info.len(),
                i <= n,
                sorted@ == sort_by_size_desc(self.info@.take(i as int)),
            decreases n - i,
        {
            let r = self.info[i];
            proof {
                lemma_sort_by_size_desc_sorted(self.info@.take(i as int));
            }
            let mut j: usize = 0;
            while j < sorted.len() && sorted[j].size >= r.size
                invariant
                    j <= sorted.len(),
                    forall|k: int| 0 <= k < j ==> sorted@[k].size >= r.size,
                decreases sorted.len() - j,
            {
                j = j + 1;
            }
            proof {
                lemma_insert_pos(sorted@, r.size, j as int);
                assert(self.info@.take(i as int + 1).drop_last() =~= self.info@.take(i as int));
            }
            sorted.insert(j, r);
            i = i + 1;
        }
        proof {
            assert(self.info@.take(n as int) =~= self.info@);
        }
        self.info = sorted;
    }
}

/// Sorting keeps every element.
pub proof fn lemma_sort_keeps(s: Seq<Requirement>, i: int)
    requires
        0 <= i < s.len(),
    ensures
        sort_by_size_desc(s).contains(s[i]),
    decreases s.len(),
{
    let t = sort_by_size_desc(s.drop_last());
    lemma_sort_by_size_desc_sorted(s.drop_last());
    lemma_insert_pos_bounds(t, s.last().size);
    let p = insert_pos(t, s.last().size) as int;
    let u = t.insert(p, s.last());
    if i == s.len() - 1 {
        assert(u[p] == s[i]);
    } else {
        lemma_sort_keeps(s.drop_last(), i);
        assert(s.drop_last()[i] == s[i]);
        let j = choose|j: int| 0 <= j < t.len() && t[j] == s[i];
        if j < p {
            assert(u[j] == s[i]);
        } else {
            assert(u[j + 1] == s[i]);
        }
    }
}

/// Sorting adds no element.
pub proof fn lemma_sort_only(s: Seq<Requirement>, j: int)
    requires
        0 <= j < sort_by_size_desc(s).len(),
    ensures
        s.contains(sort_by_size_desc(s)[j]),
    decreases s.len(),
{
    lemma_sort_by_size_desc_sorted(s);
    if s.len() > 0 {
        let t = sort_by_size_desc(s.drop_last());
        lemma_sort_by_size_desc_sorted(s.drop_last());
        lemma_insert_pos_bounds(t, s.last().size);
        let p = insert_pos(t, s.last().size) as int;
        let u = t.insert(p, s.last());
        if j == p {
            assert(u[j] == s[s.len() - 1]);
        } else {
            let jt = if j < p { j } else { j - 1 };
            assert(u[j] == t[jt]);
            lemma_sort_only(s.drop_last(), jt);
            let w = choose|w: int| 0 <= w < s.drop_last().len() && s.drop_last()[w] == t[jt];
            assert(s[w] == t[jt]);
        }
    }
}

/// Requirements for strictly increasing tensor indices.
pub open spec fn idx_increasing(s: Seq<Requirement>) -> bool {
    forall|i: int, j: int| 0 <= i < j < s.len() ==> (#[trigger] s[i]).idx < (#[trigger] s[j]).idx
}

/// No two requirements are for the same tensor.
pub open spec fn idx_distinct(s: Seq<Requirement>) -> bool {
    forall|i: int, j: int| 0 <= i < s.len() && 0 <= j < s.len() && i != j ==> (#[trigger] s[i]).idx != (#[trigger] s[j]).idx
}

/// Sorting a table with increasing tensor indices keeps them distinct.
pub proof fn lemma_sort_idx_distinct(s: Seq<Requirement>)
    requires
        idx_increasing(s),
    ensures
        idx_distinct(sort_by_size_desc(s)),
    decreases s.len(),
{
    lemma_sort_by_size_desc_sorted(s);
    if s.len() > 0 {
        let d = s.drop_last();
        assert(idx_increasing(d)) by {
            assert forall|i: int, j: int| 0 <= i < j < d.len() implies (#[trigger] d[i]).idx < (#[trigger] d[j]).idx by {
                assert(d[i] == s[i] && d[j] == s[j]);
            }
        }
        lemma_sort_idx_distinct(d);
        let t = sort_by_size_desc(d);
        lemma_sort_by_size_desc_sorted(d);
        lemma_insert_pos_bounds(t, s.last().size);
        let p = insert_pos(t, s.last().size) as int;
        let u = t.insert(p, s.last());
        assert forall|j: int| 0 <= j < t.len() implies (#[trigger] t[j]).idx != s.last().idx by {
            lemma_sort_only(d, j);
            let w = choose|w: int| 0 <= w < d.len() && d[w] == t[j];
            assert(s[w] == d[w]);
        }
        assert forall|i: int, j: int| 0 <= i < u.len() && 0 <= j < u.len() && i != j implies (#[trigger] u[i]).idx != (#[trigger] u[j]).idx by {
            let oi = if i < p { i } else { i - 1 };
            let oj = if j < p { j } else { j - 1 };
            if i == p {
                assert(u[j] == t[oj]);
            } else if j == p {
                assert(u[i] == t[oi]);
            } else {
                assert(u[i] == t[oi]);
                assert(u[j] == t[oj]);
            }
        }
    }
}

} // verus!
