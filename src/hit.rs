use vstd::prelude::*;

verus! {

// Hit distances are carried as order keys (see `order_key`): `u32` values
// that order as the distances along the ray that they stand for.

/// Whether `t` lies strictly between `t_min` and `t_max`.
pub open spec fn inside(t_min: u32, t_max: u32, t: u32) -> bool {
    t_min < t && t < t_max
}

/// Which root of a sphere's intersection quadratic is the hit.
#[derive(Clone, Copy, Debug, PartialEq, Eq, Structural)]
pub enum Root {
    /// The smaller root.
    Near,
    /// The larger root.
    Far,
}

pub open spec fn choose_root_spec(t_min: u32, t_max: u32, near: u32, far: u32) -> Option<Root> {
    if inside(t_min, t_max, near) {
        Some(Root::Near)
    } else if inside(t_min, t_max, far) {
        Some(Root::Far)
    } else {
        None
    }
}

/// Picks the hit among the two roots `near <= far` of a ray against a
/// sphere: the smaller root when it lies strictly inside `(t_min, t_max)`,
/// else the larger one under the same bound, else none.
pub fn choose_root(t_min: u32, t_max: u32, near: u32, far: u32) -> (r: Option<Root>)
    ensures
        r == choose_root_spec(t_min, t_max, near, far),
        r == Some(Root::Near) ==> inside(t_min, t_max, near),
        r == Some(Root::Far) ==> inside(t_min, t_max, far),
{
    if t_min < near && near < t_max {
        Some(Root::Near)
    } else if t_min < far && far < t_max {
        Some(Root::Far)
    } else {
        None
    }
}

/// The distance of the root that `choose_root_spec` picks.
pub open spec fn root_distance(near: u32, far: u32, root: Root) -> u32 {
    match root {
        Root::Near => near,
        Root::Far => far,
    }
}

/// An empty or reversed interval admits no hit, and a hit never lies
/// outside the open interval `(t_min, t_max)`.
pub proof fn lemma_hit_inside_interval(t_min: u32, t_max: u32, near: u32, far: u32)
    ensures
        t_min >= t_max ==> choose_root_spec(t_min, t_max, near, far) is None,
        choose_root_spec(t_min, t_max, near, far) matches Some(root)
            ==> inside(t_min, t_max, root_distance(near, far, root)),
{
}

/// Testing a sphere under a tighter upper bound keeps exactly the hit that
/// the looser bound gives when it lies below the tighter one.
pub proof fn lemma_tighter_bound(t_min: u32, t_max: u32, bound: u32, near: u32, far: u32)
    requires
        bound <= t_max,
        near <= far,
    ensures
        choose_root_spec(t_min, bound, near, far) == (match choose_root_spec(
            t_min,
            t_max,
            near,
            far,
        ) {
            Some(r) => if root_distance(near, far, r) < bound {
                Some(r)
            } else {
                None
            },
            None => None,
        }),
{
}

/// The distance key of the hit of a sphere whose intersection roots are
/// `roots` (`None` when the ray's line misses it), tested on
/// `(t_min, t_max)`.
pub open spec fn sphere_hit_key(t_min: u32, t_max: u32, roots: Option<(u32, u32)>) -> Option<u32> {
    match roots {
        None => None,
        Some((near, far)) => match choose_root_spec(t_min, t_max, near, far) {
            Some(r) => Some(root_distance(near, far, r)),
            None => None,
        },
    }
}

/// The hit keys of spheres with the given roots, each tested on the whole
/// interval.
pub open spec fn sphere_hit_keys(t_min: u32, t_max: u32, roots: Seq<Option<(u32, u32)>>) -> Seq<
    Option<u32>,
> {
    Seq::new(roots.len(), |i: int| sphere_hit_key(t_min, t_max, roots[i]))
}

/// The nearest hit found when spheres with the given roots are tested in
/// turn, each bounded above by the nearest hit found so far.
pub open spec fn bounded_scan(t_min: u32, t_max: u32, roots: Seq<Option<(u32, u32)>>) -> Option<
    (usize, u32),
>
    decreases roots.len(),
{
    if roots.len() == 0 {
        None
    } else {
        let best = bounded_scan(t_min, t_max, roots.drop_last());
        let bound = match best {
            Some((_, k)) => k,
            None => t_max,
        };
        match sphere_hit_key(t_min, bound, roots.last()) {
            Some(k) => offer_spec(best, (roots.len() - 1) as usize, k),
            None => best,
        }
    }
}

/// Bounding each test by the nearest hit so far finds the same hit as
/// testing every sphere on the whole interval and taking the nearest.
pub proof fn lemma_bounded_scan_is_nearest(t_min: u32, t_max: u32, roots: Seq<Option<(u32, u32)>>)
    requires
        forall|i: int| 0 <= i < roots.len() && roots[i] is Some ==> (roots[i]->0).0 <= (roots[i]->0).1,
    ensures
        bounded_scan(t_min, t_max, roots) == nearest_spec(sphere_hit_keys(t_min, t_max, roots)),
        bounded_scan(t_min, t_max, roots) matches Some((_, k)) ==> inside(t_min, t_max, k),
    decreases roots.len(),
{
    if roots.len() > 0 {
        let init = roots.drop_last();
        lemma_bounded_scan_is_nearest(t_min, t_max, init);
        let keys = sphere_hit_keys(t_min, t_max, roots);
        assert(keys.drop_last() =~= sphere_hit_keys(t_min, t_max, init));
        let best = bounded_scan(t_min, t_max, init);
        let bound = match best {
            Some((_, k)) => k,
            None => t_max,
        };
        match roots.last() {
            Some((near, far)) => {
                lemma_tighter_bound(t_min, t_max, bound, near, far);
            },
            None => {},
        }
    }
}

/// The nearest of the hits offered so far: its index and its distance key.
pub struct Nearest {
    pub best: Option<(usize, u32)>,
}

/// `best` after the hit `(index, key)` is offered to it: a hit replaces
/// the one held only when it is strictly nearer.
pub open spec fn offer_spec(best: Option<(usize, u32)>, index: usize, key: u32) -> Option<(usize, u32)> {
    match best {
        None => Some((index, key)),
        Some((i, k)) => if key < k {
            Some((index, key))
        } else {
            best
        },
    }
}

/// The nearest hit among `keys`, where `keys[i]` is the distance key of
/// the hit with primitive `i` or `None` for a miss; on equal distances the
/// earlier primitive wins.
pub open spec fn nearest_spec(keys: Seq<Option<u32>>) -> Option<(usize, u32)>
    decreases keys.len(),
{
    if keys.len() == 0 {
        None
    } else {
        let rest = nearest_spec(keys.drop_last());
        match keys.last() {
            None => rest,
            Some(k) => offer_spec(rest, (keys.len() - 1) as usize, k),
        }
    }
}

/// The nearest hit is the hit with the smallest distance, the first one
/// among equals, and there is none exactly when every primitive is missed.
pub proof fn lemma_nearest_is_minimum(keys: Seq<Option<u32>>)
    requires
        keys.len() <= usize::MAX,
    ensures
        nearest_spec(keys) is None <==> (forall|j: int| 0 <= j < keys.len() ==> keys[j] is None),
        nearest_spec(keys) matches Some((i, k)) ==> {
            &&& 0 <= i < keys.len()
            &&& keys[i as int] == Some(k)
            &&& forall|j: int| 0 <= j < keys.len() && keys[j] is Some ==> k <= keys[j]->0
            &&& forall|j: int| 0 <= j < i && keys[j] is Some ==> k < keys[j]->0
        },
    decreases keys.len(),
{
    if keys.len() > 0 {
        let init = keys.drop_last();
        lemma_nearest_is_minimum(init);
        assert(forall|j: int| 0 <= j < init.len() ==> init[j] == keys[j]);
    }
}

/// Keeping only the primitive that gives the nearest hit, and missing all
/// others, yields the same hit.
pub proof fn lemma_nearest_alone(keys: Seq<Option<u32>>)
    requires
        keys.len() <= usize::MAX,
        nearest_spec(keys) is Some,
    ensures
        ({
            let (i, k) = nearest_spec(keys)->0;
            let alone = Seq::new(keys.len(), |j: int| if j == i { keys[j] } else { None });
            nearest_spec(alone) == Some((i, k))
        }),
{
    let (i, k) = nearest_spec(keys)->0;
    let alone = Seq::new(keys.len(), |j: int| if j == i { keys[j] } else { None });
    lemma_nearest_is_minimum(keys);
    lemma_nearest_is_minimum(alone);
    assert(alone[i as int] is Some);
}

impl Nearest {
    /// Nothing hit yet.
    pub fn new() -> (r: Nearest)
        ensures
            r.best is None,
    {
        Nearest { best: None }
    }

    /// The upper bound for further tests: the distance key of the nearest
    /// hit so far, if any.
    pub fn bound(&self) -> (r: Option<u32>)
        ensures
            r == (match self.best {
                Some((_, k)) => Some(k),
                None => None,
            }),
    {
        match self.best {
            Some((_, k)) => Some(k),
            None => None,
        }
    }

    /// Records the hit of primitive `index` at distance key `key`.
    pub fn offer(&mut self, index: usize, key: u32)
        ensures
            final(self).best == offer_spec(old(self).best, index, key),
    {
        match self.best {
            None => {
                self.best = Some((index, key));
            },
            Some((_, k)) => {
                if key < k {
                    self.best = Some((index, key));
                }
            },
        }
    }

    /// The index of the nearest hit, if any.
    pub fn index(&self) -> (r: Option<usize>)
        ensures
            r == (match self.best {
                Some((i, _)) => Some(i),
                None => None,
            }),
    {
        match self.best {
            Some((i, _)) => Some(i),
            None => None,
        }
    }
}

/// The index of the nearest hit among `keys` (see `nearest_spec`).
pub fn nearest_hit(keys: &Vec<Option<u32>>) -> (r: Option<usize>)
    ensures
        r == (match nearest_spec(keys@) {
            Some((i, _)) => Some(i),
            None => None,
        }),
{
    let mut acc = Nearest::new();
    let mut i: usize = 0;
    while i < keys.len()
        invariant
            i <= keys.len(),
            acc.best == nearest_spec(keys@.subrange(0, i as int)),
        decreases keys.len() - i,
    {
        proof {
            assert(keys@.subrange(0, i + 1).drop_last() =~= keys@.subrange(0, i as int));
        }
        match keys[i] {
            Some(k) => acc.offer(i, k),
            None => {},
        }
        i = i + 1;
    }
    proof {
        assert(keys@.subrange(0, keys.len() as int) =~= keys@);
    }
    acc.index()
}

} // verus!
