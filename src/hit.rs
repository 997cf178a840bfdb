//! Choosing intersections along a ray.
//!
//! Ray parameters are handled here as order-preserving integer keys: for any
//! two distances `s` and `t` that are not NaN, `key(s) <= key(t)` exactly when
//! `s <= t` (for IEEE-754 single precision, the bit pattern with the sign bit
//! flipped for positive values and all bits flipped for negative ones). The
//! geometry that produces the distances lives with the caller.
use vstd::prelude::*;

verus! {

/// The real roots of a sphere's intersection quadratic, as keys.
#[derive(Clone, Copy, Debug, PartialEq, Eq, Structural)]
pub enum Quadratic {
    /// The discriminant is negative, or the ray direction has zero length.
    NoRealRoots,
    /// The smaller and the larger root.
    Roots { near: u32, far: u32 },
}

/// Which root of the quadratic a hit is at.
#[derive(Clone, Copy, Debug, PartialEq, Eq, Structural)]
pub enum Root {
    Near,
    Far,
}

/// `t` lies within the window `[t_min, t_max]`.
pub open spec fn in_window(t: u32, t_min: u32, t_max: u32) -> bool {
    t_min <= t <= t_max
}

/// The root a sphere reports: the smaller one if it lies in the window,
/// otherwise the larger one if that does, otherwise none.
pub open spec fn root_choice(q: Quadratic, t_min: u32, t_max: u32) -> Option<Root> {
    match q {
        Quadratic::NoRealRoots => None,
        Quadratic::Roots { near, far } => {
            if in_window(near, t_min, t_max) {
                Some(Root::Near)
            } else if in_window(far, t_min, t_max) {
                Some(Root::Far)
            } else {
                None
            }
        },
    }
}

/// Picks the root at which a ray hits a sphere within `[t_min, t_max]`.
pub fn pick_root(q: Quadratic, t_min: u32, t_max: u32) -> (r: Option<Root>)
    ensures
        r == root_choice(q, t_min, t_max),
        q is NoRealRoots ==> r is None,
        r == Some(Root::Near) ==> in_window(q->near, t_min, t_max),
        r == Some(Root::Far) ==> in_window(q->far, t_min, t_max),
{
    match q {
        Quadratic::NoRealRoots => None,
        Quadratic::Roots { near, far } => {
            if t_min <= near && near <= t_max {
                Some(Root::Near)
            } else if t_min <= far && far <= t_max {
                Some(Root::Far)
            } else {
                None
            }
        },
    }
}

/// `k` is the nearest of the candidate hits `keys` (`None` where a child
/// reported no hit): its key is the least, and no earlier candidate has the
/// same key.
pub open spec fn is_nearest(keys: Seq<Option<u32>>, k: int) -> bool {
    &&& 0 <= k < keys.len()
    &&& keys[k] is Some
    &&& forall|i: int|
        0 <= i < keys.len() && #[trigger] keys[i] is Some ==> keys[k]->0 <= keys[i]->0
    &&& forall|i: int| 0 <= i < k && #[trigger] keys[i] is Some ==> keys[k]->0 < keys[i]->0
}

/// No candidate is a hit.
pub open spec fn all_missed(keys: Seq<Option<u32>>) -> bool {
    forall|i: int| 0 <= i < keys.len() ==> #[trigger] keys[i] is None
}

/// Index of the nearest candidate hit in a scan over a list of objects, where
/// a later object replaces the record only with a strictly closer hit.
pub fn nearest_hit(keys: &Vec<Option<u32>>) -> (r: Option<usize>)
    ensures
        r is None <==> all_missed(keys@),
        r matches Some(k) ==> is_nearest(keys@, k as int),
{
    let mut best: Option<usize> = None;
    let mut i: usize = 0;
    while i < keys.len()
        invariant
            i <= keys@.len(),
            best is None <==> all_missed(keys@.take(i as int)),
            best matches Some(k) ==> is_nearest(keys@.take(i as int), k as int),
        decreases keys@.len() - i,
    {
        let ghost before = keys@.take(i as int);
        let ghost after = keys@.take(i as int + 1);
        assert(forall|j: int| 0 <= j < i ==> after[j] == before[j]);
        match keys[i] {
            Some(t) => {
                let closer = match best {
                    None => true,
                    Some(k) => match keys[k] {
                        Some(b) => t < b,
                        None => true,
                    },
                };
                if closer {
                    best = Some(i);
                }
            },
            None => {},
        }
        i = i + 1;
    }
    assert(keys@.take(keys@.len() as int) =~= keys@);
    best
}

/// The nearest hit does not depend on the order of the objects: over any two
/// orderings of the same candidates, either both have no hit or their nearest
/// hits are at the same distance.
pub proof fn lemma_nearest_order_independent(
    a: Seq<Option<u32>>,
    b: Seq<Option<u32>>,
    i: int,
    j: int,
)
    requires
        a.to_multiset() == b.to_multiset(),
    ensures
        all_missed(a) <==> all_missed(b),
        is_nearest(a, i) && is_nearest(b, j) ==> a[i] == b[j],
{
    broadcast use vstd::seq_lib::to_multiset_contains;

    if !all_missed(a) {
        let x = choose|x: int| 0 <= x < a.len() && a[x] is Some;
        assert(a.contains(a[x]));
        assert(a.to_multiset().count(a[x]) > 0);
        assert(b.contains(a[x]));
    }
    if !all_missed(b) {
        let y = choose|y: int| 0 <= y < b.len() && b[y] is Some;
        assert(b.contains(b[y]));
        assert(b.to_multiset().count(b[y]) > 0);
        assert(a.contains(b[y]));
    }
    if is_nearest(a, i) && is_nearest(b, j) {
        assert(a.contains(a[i]));
        assert(a.to_multiset().count(a[i]) > 0);
        assert(b.contains(a[i]));
        assert(b.contains(b[j]));
        assert(b.to_multiset().count(b[j]) > 0);
        assert(a.contains(b[j]));
    }
}

} // verus!
