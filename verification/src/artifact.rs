//! The artifact store's bookkeeping: metadata for content-addressed
//! files keyed by id and version, and the retention rule that decides
//! which versions a cleanup removes. Reading and writing the files is
//! done outside.

use vstd::prelude::*;
use crate::model::RetentionPolicy;

verus! {

/// What the store records about one artifact.
#[derive(Debug, Clone)]
pub struct ArtifactMetadata {
    pub id: String,
    pub version: String,
    pub build_id: String,
    pub pipeline_id: String,
    pub step_id: String,
    pub created_at: u64,
    pub size_bytes: u64,
    pub content_hash: String,
    pub retention_policy: RetentionPolicy,
}

/// A content-addressed artifact store rooted at a directory.
#[derive(Debug, Clone)]
pub struct ArtifactStore {
    pub root_dir: String,
}

impl ArtifactStore {
    pub fn new(root_dir: String) -> (r: ArtifactStore)
        ensures
            r.root_dir == root_dir,
    {
        ArtifactStore { root_dir }
    }
}

/// Artifact `j` outranks artifact `i` within the same id group: it was
/// created later, or at the same instant but listed earlier.
pub open spec fn outranks(arts: Seq<ArtifactMetadata>, i: int, j: int) -> bool {
    &&& arts[j].id@ == arts[i].id@
    &&& (arts[j].created_at > arts[i].created_at || (arts[j].created_at == arts[i].created_at && j
        < i))
}

/// How many artifacts among the first `m` outrank artifact `i`.
pub open spec fn outrank_count_upto(arts: Seq<ArtifactMetadata>, i: int, m: int) -> int
    decreases m,
{
    if m <= 0 {
        0
    } else {
        outrank_count_upto(arts, i, m - 1) + if outranks(arts, i, m - 1) {
            1int
        } else {
            0int
        }
    }
}

/// How many artifacts of the same id outrank artifact `i`.
pub open spec fn outrank_count(arts: Seq<ArtifactMetadata>, i: int) -> int {
    outrank_count_upto(arts, i, arts.len() as int)
}

/// The retention rule: which artifacts a cleanup that keeps the newest
/// `keep_n` versions of each id removes. An artifact goes exactly when at
/// least `keep_n` artifacts of the same id outrank it; ties on creation
/// time are broken in favour of the earlier entry. The returned indices
/// are in ascending order.
pub fn select_artifacts_to_remove(arts: &Vec<ArtifactMetadata>, keep_n: usize) -> (r: Vec<usize>)
    ensures
        forall|a: int, b: int| 0 <= a < b < r@.len() ==> r@[a] < r@[b],
        forall|t: int| 0 <= t < r@.len() ==> #[trigger] r@[t] < arts@.len(),
        forall|i: int|
            0 <= i < arts@.len() ==> (r@.contains(i as usize) <==> outrank_count(arts@, i)
                >= keep_n),
{
    let n = arts.len();
    let mut r: Vec<usize> = Vec::new();
    let mut i: usize = 0;
    while i < n
        invariant
            i <= n,
            n == arts@.len(),
            forall|a: int, b: int| 0 <= a < b < r@.len() ==> r@[a] < r@[b],
            forall|t: int| 0 <= t < r@.len() ==> #[trigger] r@[t] < i,
            forall|x: int|
                0 <= x < i ==> (#[trigger] r@.contains(x as usize) <==> outrank_count(arts@, x)
                    >= keep_n),
        decreases n - i,
    {
        let mut cnt: usize = 0;
        let mut j: usize = 0;
        while j < n
            invariant
                j <= n,
                i < n,
                n == arts@.len(),
                cnt <= j,
                cnt == outrank_count_upto(arts@, i as int, j as int),
            decreases n - j,
        {
            let newer = arts[j].created_at > arts[i].created_at || (arts[j].created_at
                == arts[i].created_at && j < i);
            if newer && arts[j].id.eq(&arts[i].id) {
                cnt = cnt + 1;
            }
            j = j + 1;
        }
        if cnt >= keep_n {
            let ghost r0 = r@;
            r.push(i);
            proof {
                assert(r@ == r0.push(i));
                assert forall|x: int|
                    0 <= x < i + 1 implies (#[trigger] r@.contains(x as usize) <==> outrank_count(
                    arts@,
                    x,
                ) >= keep_n) by {
                    if x < i as int {
                        if r0.contains(x as usize) {
                            let t = choose|t: int| 0 <= t < r0.len() && r0[t] == x as usize;
                            assert(r@[t] == x as usize);
                            assert(r@.contains(x as usize));
                        }
                        if r@.contains(x as usize) {
                            let t = choose|t: int| 0 <= t < r@.len() && r@[t] == x as usize;
                            assert(t < r0.len());
                            assert(r0[t] == x as usize);
                            assert(r0.contains(x as usize));
                        }
                    } else {
                        assert(r@[r@.len() - 1] == i);
                        assert(r@.contains(i as usize));
                    }
                }
                assert forall|a: int, b: int| 0 <= a < b < r@.len() implies r@[a] < r@[b] by {
                    assert(r@[a] == r0[a]);
                    if b < r0.len() {
                        assert(r@[b] == r0[b]);
                    } else {
                        assert(r@[b] == i);
                        assert(r0[a] < i);
                    }
                }
            }
        } else {
            proof {
                assert forall|x: int|
                    0 <= x < i + 1 implies (#[trigger] r@.contains(x as usize) <==> outrank_count(
                    arts@,
                    x,
                ) >= keep_n) by {
                    if x == i as int {
                        // the vector holds only earlier indices, so the
                        // index not pushed is not in it
                        if r@.contains(i as usize) {
                            let t = choose|t: int| 0 <= t < r@.len() && r@[t] == i as usize;
                            assert(r@[t] < i);
                        }
                    }
                }
            }
        }
        i = i + 1;
    }
    r
}

} // verus!
