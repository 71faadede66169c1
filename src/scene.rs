//! Choosing where a ray hits a scene: the root of a member that lies in the
//! range of valid distances, and the nearest such root among all members.
use vstd::prelude::*;
use crate::interval::Interval;
use crate::interval::{HIT_EPSILON_BITS, INFINITY_BITS};
use crate::order::{key, float_lt, is_nan};

verus! {

/// The two roots, nearer first, of a member's hit equation along a ray, as
/// bit patterns; `None` where the equation has no real root.
pub type Roots = Option<(u64, u64)>;

/// The root at which a member is hit within `iv`: the nearer one if `iv`
/// strictly surrounds it, else the farther one if `iv` strictly surrounds it.
pub open spec fn accepted_root(iv: Interval, near: u64, far: u64) -> Option<u64> {
    if iv.surrounds_spec(near) {
        Some(near)
    } else if iv.surrounds_spec(far) {
        Some(far)
    } else {
        None
    }
}

/// The distance at which one member is hit within `iv`.
pub open spec fn member_hit(iv: Interval, m: Roots) -> Option<u64> {
    match m {
        Some((near, far)) => accepted_root(iv, near, far),
        None => None,
    }
}

/// The members are scanned in order; each is tested against `iv` with its
/// upper end lowered to the closest distance found so far, and replaces the
/// current hit when it is hit within that range.
pub open spec fn scan(iv: Interval, ms: Seq<Roots>) -> Option<(int, u64)>
    decreases ms.len(),
{
    if ms.len() == 0 {
        None
    } else {
        let prev = scan(iv, ms.drop_last());
        let bound = match prev {
            Some((_, t)) => t,
            None => iv.1,
        };
        match member_hit(Interval(iv.0, bound), ms.last()) {
            Some(t) => Some((ms.len() - 1, t)),
            None => prev,
        }
    }
}

/// The roots of every member come nearer first.
pub open spec fn well_ordered(ms: Seq<Roots>) -> bool {
    forall|i: int|
        0 <= i < ms.len() ==> (#[trigger] ms[i] matches Some((n, f)) ==> key(n) <= key(f))
}

pub open spec fn found(r: Option<(usize, u64)>) -> Option<(int, u64)> {
    match r {
        Some((i, t)) => Some((i as int, t)),
        None => None,
    }
}

/// The root at which a member is hit within `ray_t`; the range is open, so a
/// root on its lower end, where the ray left the last surface, is not taken.
pub fn select_root(ray_t: &Interval, near: u64, far: u64) -> (r: Option<u64>)
    ensures
        r == accepted_root(*ray_t, near, far),
        r matches Some(t) ==> ray_t.surrounds_spec(t),
{
    if ray_t.surrounds(near) {
        Some(near)
    } else if ray_t.surrounds(far) {
        Some(far)
    } else {
        None
    }
}

/// The index of the member that a ray hits first within `ray_t`, and the
/// distance of that hit.
pub fn nearest_hit(ray_t: &Interval, members: &Vec<Roots>) -> (r: Option<(usize, u64)>)
    ensures
        found(r) == scan(*ray_t, members@),
        r matches Some((i, t)) ==> i < members.len() && ray_t.surrounds_spec(t),
{
    let mut closest: u64 = ray_t.1;
    let mut best: Option<(usize, u64)> = None;
    let mut i: usize = 0;
    while i < members.len()
        invariant
            i <= members.len(),
            found(best) == scan(*ray_t, members@.take(i as int)),
            match best {
                None => closest == ray_t.1,
                Some((j, t)) => closest == t && j < i && ray_t.surrounds_spec(t),
            },
        decreases members.len() - i,
    {
        assert(members@.take(i + 1).drop_last() =~= members@.take(i as int));
        if let Some((near, far)) = members[i] {
            let narrowed = Interval(ray_t.0, closest);
            if let Some(t) = select_root(&narrowed, near, far) {
                closest = t;
                best = Some((i, t));
            }
        }
        i += 1;
    }
    assert(members@.take(members.len() as int) =~= members@);
    best
}

/// Lowering the upper end of the range to `c` keeps a member's hit exactly
/// when it lies below `c`.
proof fn lemma_narrowed_hit(iv: Interval, c: u64, m: Roots)
    requires
        key(c) <= key(iv.1),
        m matches Some((n, f)) ==> key(n) <= key(f),
    ensures
        member_hit(Interval(iv.0, c), m) == (match member_hit(iv, m) {
            Some(h) => if key(h) < key(c) { Some(h) } else { None },
            None => None,
        }),
{
    crate::order::lemma_key_orders_patterns(c, iv.1);
    if let Some((n, f)) = m {
        crate::order::lemma_key_orders_patterns(n, f);
    }
}

/// The scan finds the closest hit of all members: it finds none exactly when
/// no member is hit within `iv`, and otherwise a member that is hit within
/// `iv` at a distance no other member undercuts.
pub proof fn lemma_scan_finds_closest(iv: Interval, ms: Seq<Roots>)
    requires
        well_ordered(ms),
    ensures
        scan(iv, ms) is None <==> forall|j: int|
            0 <= j < ms.len() ==> (#[trigger] member_hit(iv, ms[j])) is None,
        scan(iv, ms) matches Some((i, t)) ==> {
            &&& 0 <= i < ms.len()
            &&& member_hit(iv, ms[i]) == Some(t)
            &&& iv.surrounds_spec(t)
            &&& forall|j: int|
                0 <= j < ms.len() ==> (#[trigger] member_hit(iv, ms[j]) matches Some(u) ==> key(t)
                    <= key(u))
        },
    decreases ms.len(),
{
    if ms.len() > 0 {
        let init = ms.drop_last();
        assert(well_ordered(init)) by {
            assert forall|i: int| 0 <= i < init.len() implies (#[trigger] init[i] matches Some((
                n,
                f,
            )) ==> key(n) <= key(f)) by {
                assert(init[i] == ms[i]);
            }
        }
        lemma_scan_finds_closest(iv, init);
        let prev = scan(iv, init);
        let bound = match prev {
            Some((_, t)) => t,
            None => iv.1,
        };
        assert(ms.last() == ms[ms.len() - 1]);
        lemma_narrowed_hit(iv, bound, ms.last());
        assert forall|j: int| 0 <= j < ms.len() - 1 implies #[trigger] member_hit(iv, ms[j])
            == member_hit(iv, init[j]) by {
            assert(init[j] == ms[j]);
        }
        if let Some((i, t)) = prev {
            assert(member_hit(iv, init[i]) == Some(t));
        }
    }
}

/// Whatever the members, the scan reports only a distance strictly inside
/// `iv`.
pub proof fn lemma_scan_within(iv: Interval, ms: Seq<Roots>)
    ensures
        scan(iv, ms) matches Some((i, t)) ==> 0 <= i < ms.len() && iv.surrounds_spec(t),
    decreases ms.len(),
{
    if ms.len() > 0 {
        lemma_scan_within(iv, ms.drop_last());
    }
}

/// A ray never hits a surface at a distance of `0.001` or less, so a ray
/// that leaves a surface does not hit that surface again where it starts.
pub proof fn lemma_hit_beyond_epsilon(ms: Seq<Roots>)
    ensures
        scan(Interval(HIT_EPSILON_BITS, INFINITY_BITS), ms) matches Some((_, t)) ==> !is_nan(t)
            && float_lt(HIT_EPSILON_BITS, t),
{
    lemma_scan_within(Interval(HIT_EPSILON_BITS, INFINITY_BITS), ms);
}

/// Listing the same members in another order changes neither whether a ray
/// hits the scene nor the distance of the nearest hit.
pub proof fn lemma_scan_order_independent(iv: Interval, a: Seq<Roots>, b: Seq<Roots>)
    requires
        well_ordered(a),
        well_ordered(b),
        forall|i: int| 0 <= i < a.len() ==> b.contains(#[trigger] a[i]),
        forall|j: int| 0 <= j < b.len() ==> a.contains(#[trigger] b[j]),
    ensures
        scan(iv, a) is None <==> scan(iv, b) is None,
        scan(iv, a) matches Some((_, ta)) ==> scan(iv, b) matches Some((_, tb)) && ta == tb,
{
    lemma_scan_finds_closest(iv, a);
    lemma_scan_finds_closest(iv, b);
    if let Some((ia, ta)) = scan(iv, a) {
        let jb = choose|j: int| 0 <= j < b.len() && b[j] == a[ia];
        assert(member_hit(iv, b[jb]) == Some(ta));
        if let Some((ib, tb)) = scan(iv, b) {
            let ja = choose|i: int| 0 <= i < a.len() && a[i] == b[ib];
            assert(member_hit(iv, a[ja]) == Some(tb));
            crate::order::lemma_key_orders_patterns(ta, tb);
        }
    } else if let Some((ib, tb)) = scan(iv, b) {
        let ja = choose|i: int| 0 <= i < a.len() && a[i] == b[ib];
        assert(member_hit(iv, a[ja]) == Some(tb));
    }
}

} // verus!
