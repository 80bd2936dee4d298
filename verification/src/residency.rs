use vstd::prelude::*;

use crate::schedule::{distance_from_viewport, stored_distance, Viewport};

verus! {

/// Soft budget for decoded page rasters held in memory (about 512 MiB).
pub const MAX_IMAGE_BYTES: u64 = 536_870_912;

/// Pages within this distance of the viewport are never evicted.
pub const KEEP_RESIDENT_MARGIN: u32 = 8;

/// What eviction needs to know of one page.
#[derive(Clone, Copy, Debug)]
pub struct ResidentPage {
    /// A decoded raster is held for the page.
    pub has_image: bool,
    /// Bytes the page's raster accounts for.
    pub image_bytes: u64,
}

/// Bytes accounted for by the first `count` pages.
pub open spec fn total_bytes(pages: Seq<ResidentPage>, count: int) -> int
    decreases count,
{
    if count <= 0 {
        0
    } else {
        total_bytes(pages, count - 1) + pages[count - 1].image_bytes
    }
}

/// Bytes of the pages listed in `chosen`.
pub open spec fn chosen_bytes(pages: Seq<ResidentPage>, chosen: Seq<usize>) -> int
    decreases chosen.len(),
{
    if chosen.len() == 0 {
        0
    } else {
        chosen_bytes(pages, chosen.drop_last()) + pages[chosen.last() as int].image_bytes
    }
}

/// Bytes of the first `count` pages whose flag in `marked` is set.
pub open spec fn marked_bytes(pages: Seq<ResidentPage>, marked: Seq<bool>, count: int) -> int
    decreases count,
{
    if count <= 0 {
        0
    } else {
        marked_bytes(pages, marked, count - 1) + if marked[count - 1] {
            pages[count - 1].image_bytes as int
        } else {
            0
        }
    }
}

/// A page whose raster may be freed: it has one, and it lies more than the
/// resident margin away from the viewport.
pub open spec fn evictable(viewport: Viewport, pages: Seq<ResidentPage>, i: int) -> bool {
    0 <= i < pages.len() && pages[i].has_image && stored_distance(viewport, i)
        > KEEP_RESIDENT_MARGIN
}

/// `evicted` frees rasters farthest from the viewport first, each one only
/// while the pages are still over budget, and stops once they are within it
/// or nothing more may be freed.
pub open spec fn is_eviction(viewport: Viewport, pages: Seq<ResidentPage>, evicted: Seq<usize>) -> bool {
    let total = total_bytes(pages, pages.len() as int);
    &&& evicted.no_duplicates()
    &&& forall|k: int| 0 <= k < evicted.len() ==> evictable(viewport, pages, #[trigger] evicted[k] as int)
    &&& forall|k: int|
        0 <= k < evicted.len() ==> total - chosen_bytes(pages, #[trigger] evicted.take(k))
            > MAX_IMAGE_BYTES
    &&& forall|i: int, k: int|
        #![trigger evictable(viewport, pages, i), evicted[k]]
        evictable(viewport, pages, i) && !evicted.contains(i as usize) && 0 <= k < evicted.len()
            ==> stored_distance(viewport, i) <= stored_distance(viewport, evicted[k] as int)
    &&& forall|j: int, k: int|
        0 <= j < k < evicted.len() ==> stored_distance(viewport, #[trigger] evicted[k] as int)
            <= stored_distance(viewport, #[trigger] evicted[j] as int)
    &&& total - chosen_bytes(pages, evicted) <= MAX_IMAGE_BYTES || forall|i: int|
        evictable(viewport, pages, i) ==> evicted.contains(i as usize)
}

proof fn lemma_marked_bytes_bound(pages: Seq<ResidentPage>, marked: Seq<bool>, count: int)
    requires
        0 <= count <= pages.len(),
    ensures
        0 <= marked_bytes(pages, marked, count) <= total_bytes(pages, count),
    decreases count,
{
    if count > 0 {
        lemma_marked_bytes_bound(pages, marked, count - 1);
    }
}

/// How many of the first `count` flags are set.
spec fn marked_count(marked: Seq<bool>, count: int) -> int
    decreases count,
{
    if count <= 0 {
        0
    } else {
        marked_count(marked, count - 1) + if marked[count - 1] {
            1int
        } else {
            0
        }
    }
}

proof fn lemma_marked_count_bound(marked: Seq<bool>, count: int)
    requires
        0 <= count,
    ensures
        0 <= marked_count(marked, count) <= count,
    decreases count,
{
    if count > 0 {
        lemma_marked_count_bound(marked, count - 1);
    }
}

proof fn lemma_mark_one(pages: Seq<ResidentPage>, marked: Seq<bool>, count: int, i: int)
    requires
        0 <= i < marked.len(),
        0 <= count <= marked.len(),
        count <= pages.len(),
        !marked[i],
    ensures
        marked_bytes(pages, marked.update(i, true), count) == marked_bytes(pages, marked, count)
            + if i < count {
            pages[i].image_bytes as int
        } else {
            0
        },
        marked_count(marked.update(i, true), count) == marked_count(marked, count) + if i < count {
            1int
        } else {
            0
        },
    decreases count,
{
    if count > 0 {
        lemma_mark_one(pages, marked, count - 1, i);
        if count - 1 != i {
            assert(marked.update(i, true)[count - 1] == marked[count - 1]);
        }
    }
}

/// The pages whose rasters to free, in the order they are freed, so that a
/// long document does not grow without bound while the background pass fills
/// it in. Nothing is freed while the rasters fit in the budget.
pub fn pages_to_evict(viewport: Viewport, pages: &[ResidentPage]) -> (evicted: Vec<usize>)
    requires
        total_bytes(pages@, pages@.len() as int) <= u64::MAX,
    ensures
        is_eviction(viewport, pages@, evicted@),
        total_bytes(pages@, pages@.len() as int) <= MAX_IMAGE_BYTES ==> evicted@.len() == 0,
{
    let ghost all = pages@;
    let n = pages.len();
    let mut total: u64 = 0;
    let mut i: usize = 0;
    while i < n
        invariant
            n == all.len(),
            all == pages@,
            i <= n,
            total == total_bytes(all, i as int),
            total_bytes(all, n as int) <= u64::MAX,
        decreases n - i,
    {
        proof {
            lemma_total_monotone(all, i + 1, n as int);
        }
        total = total + pages[i].image_bytes;
        i = i + 1;
    }
    let mut evicted: Vec<usize> = Vec::new();
    let mut marked: Vec<bool> = Vec::new();
    let mut k: usize = 0;
    while k < n
        invariant
            n == all.len(),
            k <= n,
            marked@.len() == k,
            forall|j: int| 0 <= j < k ==> !marked@[j],
        decreases n - k,
    {
        marked.push(false);
        k = k + 1;
    }
    proof {
        lemma_unmarked_bytes(all, marked@, n as int);
    }
    assert(evicted@.len() == 0);
    let mut freed: u64 = 0;
    while total - freed > MAX_IMAGE_BYTES
        invariant
            n == all.len(),
            all == pages@,
            total == total_bytes(all, n as int),
            marked@.len() == n,
            freed == chosen_bytes(all, evicted@),
            freed == marked_bytes(all, marked@, n as int),
            freed <= total,
            evicted@.len() == marked_count(marked@, n as int),
            evicted@.len() > 0 ==> total > MAX_IMAGE_BYTES,
            evicted@.no_duplicates(),
            forall|j: int| 0 <= j < n ==> (#[trigger] marked@[j] <==> evicted@.contains(j as usize)),
            forall|j: int| 0 <= j < evicted@.len() ==> evictable(viewport, all, #[trigger] evicted@[j] as int),
            forall|j: int|
                0 <= j < evicted@.len() ==> total - chosen_bytes(all, #[trigger] evicted@.take(j))
                    > MAX_IMAGE_BYTES,
            forall|c: int, j: int|
                #![trigger evictable(viewport, all, c), evicted@[j]]
                evictable(viewport, all, c) && !evicted@.contains(c as usize) && 0 <= j < evicted@.len()
                    ==> stored_distance(viewport, c) <= stored_distance(viewport, evicted@[j] as int),
            forall|a: int, b: int|
                0 <= a < b < evicted@.len() ==> stored_distance(viewport, #[trigger] evicted@[b] as int)
                    <= stored_distance(viewport, #[trigger] evicted@[a] as int),
        ensures
            evicted@.len() > 0 ==> total > MAX_IMAGE_BYTES,
            total - freed <= MAX_IMAGE_BYTES || forall|c: int|
                evictable(viewport, all, c) ==> evicted@.contains(c as usize),
            freed == chosen_bytes(all, evicted@),
            evicted@.no_duplicates(),
            forall|j: int| 0 <= j < evicted@.len() ==> evictable(viewport, all, #[trigger] evicted@[j] as int),
            forall|j: int|
                0 <= j < evicted@.len() ==> total - chosen_bytes(all, #[trigger] evicted@.take(j))
                    > MAX_IMAGE_BYTES,
            forall|c: int, j: int|
                #![trigger evictable(viewport, all, c), evicted@[j]]
                evictable(viewport, all, c) && !evicted@.contains(c as usize) && 0 <= j < evicted@.len()
                    ==> stored_distance(viewport, c) <= stored_distance(viewport, evicted@[j] as int),
            forall|a: int, b: int|
                0 <= a < b < evicted@.len() ==> stored_distance(viewport, #[trigger] evicted@[b] as int)
                    <= stored_distance(viewport, #[trigger] evicted@[a] as int),
        decreases n - evicted@.len(),
    {
        // The farthest page still holding an evictable raster, the first of
        // them on a tie.
        let mut best: Option<usize> = None;
        let mut best_distance: u32 = 0;
        let mut j: usize = 0;
        while j < n
            invariant
                n == all.len(),
                all == pages@,
                marked@.len() == n,
                j <= n,
                match best {
                    Some(b) => {
                        &&& b < j
                        &&& evictable(viewport, all, b as int)
                        &&& !marked@[b as int]
                        &&& best_distance == stored_distance(viewport, b as int)
                        &&& forall|c: int|
                            0 <= c < j && evictable(viewport, all, c) && !marked@[c]
                                ==> stored_distance(viewport, c) <= best_distance
                    },
                    None => forall|c: int|
                        0 <= c < j ==> !(evictable(viewport, all, c) && !marked@[c]),
                },
            decreases n - j,
        {
            let distance = distance_from_viewport(viewport, j);
            if pages[j].has_image && distance > KEEP_RESIDENT_MARGIN && !marked[j] {
                match best {
                    Some(_) => {
                        if distance > best_distance {
                            best = Some(j);
                            best_distance = distance;
                        }
                    },
                    None => {
                        best = Some(j);
                        best_distance = distance;
                    },
                }
            }
            j = j + 1;
        }
        match best {
            None => {
                assert forall|c: int| evictable(viewport, all, c) implies evicted@.contains(c as usize) by {
                    assert(marked@[c]);
                }
                break;
            },
            Some(b) => {
                let ghost before = evicted@;
                let ghost before_marked = marked@;
                proof {
                    lemma_mark_one(all, marked@, n as int, b as int);
                    lemma_marked_count_bound(marked@.update(b as int, true), n as int);
                    lemma_marked_bytes_bound(all, marked@.update(b as int, true), n as int);
                }
                freed = freed + pages[b].image_bytes;
                evicted.push(b);
                marked.set(b, true);
                assert(evicted@.take(before.len() as int) =~= before);
                assert(evicted@.drop_last() =~= before);
                assert forall|x: usize| #[trigger] evicted@.contains(x) <==> (before.contains(x) || x == b) by {
                    if evicted@.contains(x) {
                        let q = choose|q: int| 0 <= q < evicted@.len() && evicted@[q] == x;
                        if q < before.len() {
                            assert(before[q] == x);
                        }
                    }
                    if before.contains(x) {
                        let q = choose|q: int| 0 <= q < before.len() && before[q] == x;
                        assert(evicted@[q] == x);
                    }
                    assert(evicted@[before.len() as int] == b);
                }
                assert forall|q: int| 0 <= q < evicted@.len() implies total - chosen_bytes(all, #[trigger] evicted@.take(q))
                    > MAX_IMAGE_BYTES by {
                    if q < before.len() {
                        assert(evicted@.take(q) =~= before.take(q));
                    }
                }
                assert forall|x: int| 0 <= x < n implies (#[trigger] marked@[x] <==> evicted@.contains(x as usize)) by {
                    if x == b {
                    } else {
                        assert(marked@[x] == before_marked[x]);
                    }
                }
            },
        }
    }
    evicted
}

proof fn lemma_total_monotone(pages: Seq<ResidentPage>, a: int, b: int)
    requires
        0 <= a <= b <= pages.len(),
    ensures
        total_bytes(pages, a) <= total_bytes(pages, b),
    decreases b - a,
{
    if a < b {
        lemma_total_monotone(pages, a, b - 1);
    }
}

proof fn lemma_unmarked_bytes(pages: Seq<ResidentPage>, marked: Seq<bool>, count: int)
    requires
        0 <= count <= marked.len(),
        forall|j: int| 0 <= j < count ==> !marked[j],
    ensures
        marked_bytes(pages, marked, count) == 0,
        marked_count(marked, count) == 0,
    decreases count,
{
    if count > 0 {
        lemma_unmarked_bytes(pages, marked, count - 1);
    }
}

} // verus!
