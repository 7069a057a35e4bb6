//! A model of the vector store's point collection, as far as the pipeline
//! relies on it: points are keyed by integer id, and a write creates or
//! overwrites the point with its id — never a second copy.
//!
//! The remote store is consumed through this contract; the laws below are
//! what make re-ingestion idempotent.

use crate::payload::VectorPoint;
use vstd::prelude::*;

verus! {

/// Index of the first point with `id`, or `-1` when absent.
pub open spec fn spec_find_id(s: Seq<VectorPoint>, id: u64) -> int
    decreases s.len(),
{
    if s.len() == 0 {
        -1
    } else if s[0].id == id {
        0
    } else if spec_find_id(s.drop_first(), id) < 0 {
        -1
    } else {
        1 + spec_find_id(s.drop_first(), id)
    }
}

pub proof fn lemma_spec_find_id(s: Seq<VectorPoint>, id: u64)
    ensures
        -1 <= spec_find_id(s, id) < s.len(),
        spec_find_id(s, id) >= 0 ==> s[spec_find_id(s, id)].id == id,
        forall|j: int| 0 <= j < spec_find_id(s, id) ==> s[j].id != id,
        spec_find_id(s, id) == -1 ==> forall|j: int| 0 <= j < s.len() ==> s[j].id != id,
    decreases s.len(),
{
    if s.len() > 0 && s[0].id != id {
        lemma_spec_find_id(s.drop_first(), id);
        assert(forall|j: int| 1 <= j < s.len() ==> s[j] == s.drop_first()[j - 1]);
    }
}

/// `spec_find_id` is pinned by the first-occurrence property.
pub proof fn lemma_spec_find_id_is(s: Seq<VectorPoint>, id: u64, i: int)
    requires
        0 <= i < s.len(),
        s[i].id == id,
        forall|j: int| 0 <= j < i ==> s[j].id != id,
    ensures
        spec_find_id(s, id) == i,
{
    lemma_spec_find_id(s, id);
    let f = spec_find_id(s, id);
    if f == -1 {
        assert(s[i].id != id);
    } else if f < i {
        assert(s[f].id != id);
    } else if f > i {
        assert(s[i].id != id);
    }
}

pub proof fn lemma_spec_find_id_none(s: Seq<VectorPoint>, id: u64)
    requires
        forall|j: int| 0 <= j < s.len() ==> s[j].id != id,
    ensures
        spec_find_id(s, id) == -1,
{
    lemma_spec_find_id(s, id);
    let f = spec_find_id(s, id);
    if f >= 0 {
        assert(s[f].id != id);
    }
}

/// An upsert: overwrite the point holding the id, or append the point when
/// the id is new.
pub open spec fn spec_upsert(s: Seq<VectorPoint>, p: VectorPoint) -> Seq<VectorPoint> {
    let i = spec_find_id(s, p.id);
    if i < 0 {
        s.push(p)
    } else {
        s.update(i, p)
    }
}

/// How many points hold `id`.
pub open spec fn spec_count_id(s: Seq<VectorPoint>, id: u64) -> int
    decreases s.len(),
{
    if s.len() == 0 {
        0int
    } else {
        (if s.last().id == id {
            1int
        } else {
            0int
        }) + spec_count_id(s.drop_last(), id)
    }
}

/// No two points hold the same id.
pub open spec fn unique_ids(s: Seq<VectorPoint>) -> bool {
    forall|i: int, j: int| 0 <= i < j < s.len() ==> s[i].id != s[j].id
}

/// With unique ids, an id is held by exactly one point or none.
pub proof fn lemma_count_id_unique(s: Seq<VectorPoint>, id: u64)
    requires
        unique_ids(s),
    ensures
        spec_count_id(s, id) == (if spec_find_id(s, id) >= 0 {
            1int
        } else {
            0int
        }),
    decreases s.len(),
{
    lemma_spec_find_id(s, id);
    if s.len() > 0 {
        let d = s.drop_last();
        assert(forall|j: int| 0 <= j < d.len() ==> d[j] == s[j]);
        lemma_count_id_unique(d, id);
        lemma_spec_find_id(d, id);
        let f = spec_find_id(s, id);
        let fd = spec_find_id(d, id);
        if s.last().id == id {
            if fd >= 0 {
                assert(d[fd].id == id && s[fd] == d[fd]);
                assert(s[fd].id != s[s.len() - 1].id);
            }
        } else {
            if f >= 0 {
                assert(f < s.len() - 1);
                lemma_spec_find_id_is(d, id, f);
            }
            if fd >= 0 {
                assert(s[fd].id == id);
            }
        }
    }
}

/// An upsert keeps ids unique.
pub proof fn lemma_upsert_unique(s: Seq<VectorPoint>, p: VectorPoint)
    requires
        unique_ids(s),
    ensures
        unique_ids(spec_upsert(s, p)),
{
    lemma_spec_find_id(s, p.id);
    let i = spec_find_id(s, p.id);
    if i < 0 {
        let t = s.push(p);
        assert forall|a: int, b: int| 0 <= a < b < t.len() implies t[a].id != t[b].id by {
            if b == t.len() - 1 {
                assert(t[a] == s[a]);
                assert(s[a].id != p.id);
            } else {
                assert(t[a] == s[a] && t[b] == s[b]);
            }
        }
    } else {
        let t = s.update(i, p);
        assert forall|a: int, b: int| 0 <= a < b < t.len() implies t[a].id != t[b].id by {
            if a == i {
                assert(t[b] == s[b] && s[i].id == p.id);
            } else if b == i {
                assert(t[a] == s[a] && s[i].id == p.id);
            } else {
                assert(t[a] == s[a] && t[b] == s[b]);
            }
        }
    }
}

/// Where an upsert leaves the point: under its id, with exactly its values.
pub proof fn lemma_upsert_found(s: Seq<VectorPoint>, p: VectorPoint)
    requires
        unique_ids(s),
    ensures
        ({
            let t = spec_upsert(s, p);
            let i = spec_find_id(t, p.id);
            0 <= i < t.len() && t[i] == p
        }),
{
    lemma_spec_find_id(s, p.id);
    let i = spec_find_id(s, p.id);
    if i < 0 {
        let t = s.push(p);
        assert(forall|j: int| 0 <= j < s.len() ==> t[j] == s[j]);
        lemma_spec_find_id_is(t, p.id, s.len() as int);
    } else {
        let t = s.update(i, p);
        assert(forall|j: int| 0 <= j < i ==> t[j] == s[j]);
        lemma_spec_find_id_is(t, p.id, i);
    }
}

/// Law: upserting the same point twice leaves the store exactly as one
/// upsert does.
pub proof fn lemma_upsert_idempotent(s: Seq<VectorPoint>, p: VectorPoint)
    requires
        unique_ids(s),
    ensures
        spec_upsert(spec_upsert(s, p), p) == spec_upsert(s, p),
{
    lemma_upsert_found(s, p);
    let t = spec_upsert(s, p);
    let i = spec_find_id(t, p.id);
    assert(spec_upsert(t, p) =~= t);
}

/// Law: after an upsert the store holds exactly one point under the id,
/// and it carries the written values.
pub proof fn lemma_upsert_exactly_one(s: Seq<VectorPoint>, p: VectorPoint)
    requires
        unique_ids(s),
    ensures
        spec_count_id(spec_upsert(s, p), p.id) == 1,
        spec_upsert(s, p)[spec_find_id(spec_upsert(s, p), p.id)] == p,
{
    lemma_upsert_unique(s, p);
    lemma_upsert_found(s, p);
    lemma_count_id_unique(spec_upsert(s, p), p.id);
}

/// Law: of two upserts under one id, the later write wins — the store ends
/// exactly as if only the later one had happened.
pub proof fn lemma_upsert_latest_wins(s: Seq<VectorPoint>, p1: VectorPoint, p2: VectorPoint)
    requires
        unique_ids(s),
        p1.id == p2.id,
    ensures
        spec_upsert(spec_upsert(s, p1), p2) == spec_upsert(s, p2),
{
    lemma_upsert_found(s, p1);
    lemma_spec_find_id(s, p1.id);
    let t = spec_upsert(s, p1);
    let i = spec_find_id(t, p2.id);
    let i0 = spec_find_id(s, p1.id);
    if i0 < 0 {
        assert(spec_upsert(t, p2) =~= s.push(p2));
        lemma_spec_find_id_none(s, p2.id);
    } else {
        assert(i == i0);
        assert(spec_upsert(t, p2) =~= s.update(i0, p2));
    }
}

/// The store model: points in write order, ids unique.
pub struct VectorStore {
    pub points: Vec<VectorPoint>,
}

impl VectorStore {
    /// The store's invariant: ids are unique.
    pub open spec fn wf(&self) -> bool {
        unique_ids(self.points@)
    }

    /// An empty store.
    pub fn new() -> (r: Self)
        ensures
            r.points@.len() == 0,
            r.wf(),
    {
        VectorStore { points: Vec::new() }
    }

    /// How many points the store holds.
    pub fn len(&self) -> (n: usize)
        ensures
            n == self.points@.len(),
    {
        self.points.len()
    }

    /// Writes `p`: overwrites the point holding `p.id`, or appends when the
    /// id is new.
    pub fn upsert(&mut self, p: VectorPoint)
        requires
            old(self).wf(),
        ensures
            final(self).points@ == spec_upsert(old(self).points@, p),
            final(self).wf(),
    {
        let n = self.points.len();
        let id = p.id;
        let mut i: usize = 0;
        while i < n
            invariant
                0 <= i <= n == self.points@.len(),
                self.points@ == old(self).points@,
                old(self).wf(),
                forall|j: int| 0 <= j < i ==> self.points@[j].id != id,
                id == p.id,
            decreases n - i,
        {
            if self.points[i].id == id {
                proof {
                    lemma_spec_find_id_is(self.points@, id, i as int);
                    lemma_upsert_unique(old(self).points@, p);
                }
                self.points[i] = p;
                proof {
                    assert(self.points@ =~= spec_upsert(old(self).points@, p));
                }
                return ;
            }
            i += 1;
        }
        proof {
            lemma_spec_find_id_none(self.points@, id);
            lemma_upsert_unique(old(self).points@, p);
        }
        self.points.push(p);
    }

    /// The point holding `id`, if any.
    pub fn get(&self, id: u64) -> (r: Option<&VectorPoint>)
        ensures
            match r {
                Some(q) => spec_find_id(self.points@, id) >= 0 && *q == self.points@[spec_find_id(
                    self.points@,
                    id,
                )],
                None => spec_find_id(self.points@, id) == -1,
            },
    {
        let n = self.points.len();
        let mut i: usize = 0;
        while i < n
            invariant
                0 <= i <= n == self.points@.len(),
                forall|j: int| 0 <= j < i ==> self.points@[j].id != id,
            decreases n - i,
        {
            if self.points[i].id == id {
                proof {
                    lemma_spec_find_id_is(self.points@, id, i as int);
                }
                return Some(&self.points[i]);
            }
            i += 1;
        }
        proof {
            lemma_spec_find_id_none(self.points@, id);
        }
        None
    }
}

} // verus!
