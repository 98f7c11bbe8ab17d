//! Sort and sweep: which pairs of entities overlap on the x axis.
//!
//! Every entity is projected onto the x axis.  The intervals are put in
//! order of their left ends, and each interval is paired with every earlier
//! one that has not ended before it begins.
use vstd::prelude::*;
use vstd::relations::{sorted_by, total_ordering};
use vstd::seq_lib::{
    lemma_multiset_commutative, lemma_sorted_unique, to_multiset_build, to_multiset_contains,
    to_multiset_len,
};
use crate::math::scalar::Scalar;
use crate::physics::store::{EntityId, EntityManager, World};

verus! {

/// The extent of one entity on the x axis.
#[derive(Clone, Copy, Debug, PartialEq, Eq, Structural)]
pub struct Interval {
    pub min_x: Scalar,
    pub max_x: Scalar,
    pub id: EntityId,
}

/// The order of the sweep: by left end, then by identifier, then by right end.
pub open spec fn interval_leq(a: Interval, b: Interval) -> bool {
    a.min_x < b.min_x || (a.min_x == b.min_x && (a.id.0 < b.id.0 || (a.id.0 == b.id.0 && a.max_x
        <= b.max_x)))
}

/// [`interval_leq`] as a relation.
pub open spec fn sweep_leq() -> spec_fn(Interval, Interval) -> bool {
    |a: Interval, b: Interval| interval_leq(a, b)
}

/// Whether `a` has not ended before `b` begins.
pub open spec fn reaches(a: Interval, b: Interval) -> bool {
    a.max_x >= b.min_x
}

/// The intervals that reach `b`.
pub open spec fn reaching(b: Interval) -> spec_fn(Interval) -> bool {
    |a: Interval| reaches(a, b)
}

/// The pair of `a` with the entity `second`.
pub open spec fn paired_with(second: EntityId) -> spec_fn(Interval) -> (EntityId, EntityId) {
    |a: Interval| (a.id, second)
}

/// The interval of the entity at position `index` of `world`.
pub open spec fn interval_at(world: World, index: int) -> Interval {
    Interval {
        min_x: world.entities[index].bounding_box.spec_left(),
        max_x: world.entities[index].bounding_box.spec_right(),
        id: world.id_at(index),
    }
}

/// Whether `interval` is the interval of some entity of `world`.
pub open spec fn is_interval_of(world: World, interval: Interval) -> bool {
    exists|index: int|
        0 <= index < world.entities.len() && #[trigger] interval_at(world, index) == interval
}

/// The intervals of all entities of `world`, in order of addition.
pub open spec fn intervals(world: World) -> Seq<Interval> {
    Seq::new(world.entities.len(), |index: int| interval_at(world, index))
}

/// The intervals of `world` in the order of the sweep.
pub open spec fn sweep_order(world: World) -> Seq<Interval> {
    intervals(world).sort_by(sweep_leq())
}

/// The intervals before position `k` of `order` that reach the one at `k`.
pub open spec fn partners(order: Seq<Interval>, k: int) -> Seq<Interval> {
    order.take(k).filter(reaching(order[k]))
}

/// The pairs that the sweep reports when it arrives at position `k`: every
/// partner of the interval at `k`, in order, with that interval second.
pub open spec fn pairs_at(order: Seq<Interval>, k: int) -> Seq<(EntityId, EntityId)> {
    partners(order, k).map_values(paired_with(order[k].id))
}

/// The pairs that the sweep reports over the first `n` positions of `order`.
pub open spec fn sweep_pairs(order: Seq<Interval>, n: nat) -> Seq<(EntityId, EntityId)>
    decreases n,
{
    if n == 0 {
        Seq::empty()
    } else {
        sweep_pairs(order, (n - 1) as nat) + pairs_at(order, n - 1)
    }
}

/// The candidate pairs of `world`: what the sweep reports over all of its
/// intervals taken in sweep order.
pub open spec fn candidate_pairs(world: World) -> Seq<(EntityId, EntityId)> {
    sweep_pairs(sweep_order(world), world.entities.len())
}

/// The order of the sweep is a total order.
pub proof fn lemma_sweep_leq_total()
    ensures
        total_ordering(sweep_leq()),
{
    let leq = sweep_leq();
    assert forall|a: Interval, b: Interval| #[trigger] leq(a, b) && #[trigger] leq(b, a) implies a
        == b by {
        assert(a.id.0 == b.id.0);
        assert(a.id == b.id);
    }
}

/// Filtering by a weaker predicate first changes nothing.
proof fn lemma_filter_twice(
    s: Seq<Interval>,
    weak: spec_fn(Interval) -> bool,
    strong: spec_fn(Interval) -> bool,
)
    requires
        forall|a: Interval| #[trigger] strong(a) ==> weak(a),
    ensures
        s.filter(weak).filter(strong) == s.filter(strong),
    decreases s.len(),
{
    reveal(Seq::filter);
    if s.len() > 0 {
        let rest = s.drop_last();
        lemma_filter_twice(rest, weak, strong);
        if weak(s.last()) {
            rest.filter(weak).lemma_filter_push(s.last(), strong);
        }
    }
}

/// What is left of the active list after pruning is the list of partners.
proof fn lemma_prune(order: Seq<Interval>, k: int)
    requires
        sorted_by(order, sweep_leq()),
        0 < k < order.len(),
    ensures
        partners(order, k - 1).push(order[k - 1]).filter(reaching(order[k])) == partners(order, k),
{
    let before = order.take(k - 1);
    let weak = reaching(order[k - 1]);
    let strong = reaching(order[k]);
    assert(sweep_leq()(order[k - 1], order[k]));
    lemma_filter_twice(before, weak, strong);
    before.filter(weak).lemma_filter_push(order[k - 1], strong);
    before.lemma_filter_push(order[k - 1], strong);
    assert(order.take(k) =~= before.push(order[k - 1]));
}

/// Every pair that the sweep reports is made of an interval and an earlier
/// one that reaches it.
pub proof fn lemma_sweep_pairs_sound(order: Seq<Interval>, n: nat, pair: (EntityId, EntityId))
    requires
        n <= order.len(),
        sweep_pairs(order, n).contains(pair),
    ensures
        exists|i: int, k: int|
            0 <= i < k < n && reaches(#[trigger] order[i], #[trigger] order[k]) && pair == (
                order[i].id,
                order[k].id,
            ),
    decreases n,
{
    if n > 0 {
        let k = n - 1;
        let earlier = sweep_pairs(order, k as nat);
        let found = pairs_at(order, k);
        let at = choose|at: int| 0 <= at < (earlier + found).len() && (earlier + found)[at] == pair;
        if at < earlier.len() {
            assert(earlier[at] == pair);
            lemma_sweep_pairs_sound(order, k as nat, pair);
        } else {
            let partner = partners(order, k)[at - earlier.len()];
            assert(found[at - earlier.len()] == pair);
            assert(partners(order, k).contains(partner));
            order.take(k).lemma_filter_contains_rev(reaching(order[k]), partner);
            order.take(k).lemma_filter_pred(reaching(order[k]), at - earlier.len());
            let i = choose|i: int| 0 <= i < order.take(k).len() && order.take(k)[i] == partner;
            assert(order[i] == partner);
            assert(reaches(order[i], order[k]));
        }
    }
}

/// The sweep reports every pair of an interval with an earlier one that
/// reaches it.
pub proof fn lemma_sweep_pairs_complete(order: Seq<Interval>, n: nat, i: int, k: int)
    requires
        0 <= i < k < n <= order.len(),
        reaches(order[i], order[k]),
    ensures
        sweep_pairs(order, n).contains((order[i].id, order[k].id)),
    decreases n,
{
    let last = n - 1;
    let earlier = sweep_pairs(order, last as nat);
    let found = pairs_at(order, last);
    if k == last {
        assert(order.take(k)[i] == order[i]);
        order.take(k).lemma_filter_contains(reaching(order[k]), i);
        let at = choose|at: int|
            0 <= at < partners(order, k).len() && partners(order, k)[at] == order[i];
        assert(found[at] == (order[i].id, order[k].id));
        assert((earlier + found)[earlier.len() + at] == found[at]);
    } else {
        lemma_sweep_pairs_complete(order, last as nat, i, k);
        let at = choose|at: int|
            0 <= at < earlier.len() && earlier[at] == (order[i].id, order[k].id);
        assert((earlier + found)[at] == earlier[at]);
    }
}

/// The sweep order holds exactly the intervals of the world: each interval
/// of the world stands somewhere in it, and each of its entries is the
/// interval of some entity.
pub proof fn lemma_sweep_order_permutes(world: World)
    ensures
        sweep_order(world).len() == world.entities.len(),
        sorted_by(sweep_order(world), sweep_leq()),
        forall|i: int|
            0 <= i < world.entities.len() ==> sweep_order(world).contains(
                #[trigger] interval_at(world, i),
            ),
        forall|p: int|
            0 <= p < sweep_order(world).len() ==> is_interval_of(
                world,
                #[trigger] sweep_order(world)[p],
            ),
{
    let all = intervals(world);
    let order = sweep_order(world);
    lemma_sweep_leq_total();
    all.lemma_sort_by_ensures(sweep_leq());
    to_multiset_len(all);
    to_multiset_len(order);
    assert forall|i: int| 0 <= i < world.entities.len() implies order.contains(
        #[trigger] interval_at(world, i),
    ) by {
        assert(all[i] == interval_at(world, i));
        assert(all.contains(interval_at(world, i)));
        to_multiset_contains(all, interval_at(world, i));
        to_multiset_contains(order, interval_at(world, i));
    }
    assert forall|p: int| 0 <= p < order.len() implies is_interval_of(world, #[trigger] order[p]) by {
        assert(order.contains(order[p]));
        assert(all.contains(order[p]));
        let i = choose|i: int| 0 <= i < all.len() && all[i] == order[p];
        assert(interval_at(world, i) == order[p]);
    }
}

fn interval_le(a: &Interval, b: &Interval) -> (r: bool)
    ensures
        r == interval_leq(*a, *b),
{
    a.min_x < b.min_x || (a.min_x == b.min_x && (a.id.0 < b.id.0 || (a.id.0 == b.id.0 && a.max_x
        <= b.max_x)))
}

fn copy_range(v: &Vec<Interval>, from: usize, to: usize) -> (out: Vec<Interval>)
    requires
        from <= to <= v@.len(),
    ensures
        out@ == v@.subrange(from as int, to as int),
{
    let mut out: Vec<Interval> = Vec::new();
    let mut i: usize = from;
    while i < to
        invariant
            from <= i <= to <= v@.len(),
            out@ == v@.subrange(from as int, i as int),
        decreases to - i,
    {
        out.push(v[i]);
        i += 1;
        assert(out@ =~= v@.subrange(from as int, i as int));
    }
    out
}

/// Merges two sorted lists into one.
fn merge(left: &Vec<Interval>, right: &Vec<Interval>) -> (out: Vec<Interval>)
    requires
        sorted_by(left@, sweep_leq()),
        sorted_by(right@, sweep_leq()),
    ensures
        sorted_by(out@, sweep_leq()),
        out@.to_multiset() == left@.to_multiset().add(right@.to_multiset()),
{
    let mut out: Vec<Interval> = Vec::new();
    let mut i: usize = 0;
    let mut j: usize = 0;
    proof {
        lemma_sweep_leq_total();
        assert(left@.take(0) =~= out@);
        assert(right@.take(0) =~= out@);
        lemma_multiset_commutative(out@, out@);
        assert(out@ + out@ =~= out@);
    }
    while i < left.len() || j < right.len()
        invariant
            i <= left@.len(),
            j <= right@.len(),
            total_ordering(sweep_leq()),
            sorted_by(left@, sweep_leq()),
            sorted_by(right@, sweep_leq()),
            sorted_by(out@, sweep_leq()),
            out@.to_multiset() == left@.take(i as int).to_multiset().add(
                right@.take(j as int).to_multiset(),
            ),
            forall|k: int, p: int|
                0 <= k < out@.len() && i <= p < left@.len() ==> interval_leq(
                    #[trigger] out@[k],
                    #[trigger] left@[p],
                ),
            forall|k: int, p: int|
                0 <= k < out@.len() && j <= p < right@.len() ==> interval_leq(
                    #[trigger] out@[k],
                    #[trigger] right@[p],
                ),
        decreases left@.len() - i + right@.len() - j,
    {
        let from_left: bool = if j >= right.len() {
            true
        } else if i >= left.len() {
            false
        } else {
            interval_le(&left[i], &right[j])
        };
        let ghost before = out@;
        if from_left {
            let x = left[i];
            proof {
                assert(left@.take(i + 1) =~= left@.take(i as int).push(x));
                to_multiset_build(left@.take(i as int), x);
                to_multiset_build(before, x);
                assert(before.push(x).to_multiset() =~= left@.take(i + 1).to_multiset().add(
                    right@.take(j as int).to_multiset(),
                ));
                assert forall|p: int| i < p < left@.len() implies interval_leq(
                    x,
                    #[trigger] left@[p],
                ) by {
                    assert(sweep_leq()(left@[i as int], left@[p]));
                }
                assert forall|p: int| j <= p < right@.len() implies interval_leq(
                    x,
                    #[trigger] right@[p],
                ) by {
                    assert(interval_leq(x, right@[j as int]));
                    if j < p {
                        assert(sweep_leq()(right@[j as int], right@[p]));
                    }
                }
            }
            out.push(x);
            i += 1;
        } else {
            let x = right[j];
            proof {
                assert(right@.take(j + 1) =~= right@.take(j as int).push(x));
                to_multiset_build(right@.take(j as int), x);
                to_multiset_build(before, x);
                assert(before.push(x).to_multiset() =~= left@.take(i as int).to_multiset().add(
                    right@.take(j + 1).to_multiset(),
                ));
                assert forall|p: int| j < p < right@.len() implies interval_leq(
                    x,
                    #[trigger] right@[p],
                ) by {
                    assert(sweep_leq()(right@[j as int], right@[p]));
                }
                assert forall|p: int| i <= p < left@.len() implies interval_leq(
                    x,
                    #[trigger] left@[p],
                ) by {
                    assert(interval_leq(x, left@[i as int]));
                    if i < p {
                        assert(sweep_leq()(left@[i as int], left@[p]));
                    }
                }
            }
            out.push(x);
            j += 1;
        }
        proof {
            assert forall|a: int, b: int| 0 <= a < b < out@.len() implies sweep_leq()(
                out@[a],
                out@[b],
            ) by {
                if b < before.len() {
                    assert(sweep_leq()(before[a], before[b]));
                }
            }
        }
    }
    proof {
        assert(left@.take(i as int) =~= left@);
        assert(right@.take(j as int) =~= right@);
    }
    out
}

/// Puts intervals in the order of the sweep, by merge sort.
pub fn sort_intervals(v: &Vec<Interval>) -> (out: Vec<Interval>)
    ensures
        out@ == v@.sort_by(sweep_leq()),
        sorted_by(out@, sweep_leq()),
        out@.to_multiset() == v@.to_multiset(),
        out@.len() == v@.len(),
    decreases v@.len(),
{
    let n: usize = v.len();
    let out = if n <= 1 {
        copy_range(v, 0, n)
    } else {
        let mid: usize = n / 2;
        let left = copy_range(v, 0, mid);
        let right = copy_range(v, mid, n);
        let sorted_left = sort_intervals(&left);
        let sorted_right = sort_intervals(&right);
        proof {
            assert(v@ =~= left@ + right@);
            lemma_multiset_commutative(left@, right@);
        }
        merge(&sorted_left, &sorted_right)
    };
    proof {
        lemma_sweep_leq_total();
        if n <= 1 {
            assert(out@ =~= v@);
        }
        v@.lemma_sort_by_ensures(sweep_leq());
        lemma_sorted_unique(out@, v@.sort_by(sweep_leq()), sweep_leq());
        to_multiset_len(out@);
        to_multiset_len(v@);
    }
    out
}

/// The entries of `active` that reach `current`, in their order.
fn prune(active: &Vec<Interval>, current: &Interval) -> (kept: Vec<Interval>)
    ensures
        kept@ == active@.filter(reaching(*current)),
{
    let mut kept: Vec<Interval> = Vec::new();
    let mut i: usize = 0;
    proof {
        reveal(Seq::filter);
        assert(active@.take(0) =~= Seq::empty());
    }
    while i < active.len()
        invariant
            i <= active@.len(),
            kept@ == active@.take(i as int).filter(reaching(*current)),
        decreases active@.len() - i,
    {
        proof {
            assert(active@.take(i + 1) =~= active@.take(i as int).push(active@[i as int]));
            active@.take(i as int).lemma_filter_push(active@[i as int], reaching(*current));
        }
        if active[i].max_x >= current.min_x {
            kept.push(active[i]);
        }
        i += 1;
    }
    proof {
        assert(active@.take(i as int) =~= active@);
    }
    kept
}

/// Sweeps over intervals in sweep order and reports every pair of an
/// interval with an earlier one that reaches it.
pub fn sweep(order: &Vec<Interval>) -> (pairs: Vec<(EntityId, EntityId)>)
    requires
        sorted_by(order@, sweep_leq()),
    ensures
        pairs@ == sweep_pairs(order@, order@.len()),
{
    let mut pairs: Vec<(EntityId, EntityId)> = Vec::new();
    let mut active: Vec<Interval> = Vec::new();
    let mut k: usize = 0;
    while k < order.len()
        invariant
            k <= order@.len(),
            sorted_by(order@, sweep_leq()),
            pairs@ == sweep_pairs(order@, k as nat),
            k == 0 ==> active@ == Seq::<Interval>::empty(),
            k > 0 ==> active@ == partners(order@, k - 1).push(order@[k - 1]),
        decreases order@.len() - k,
    {
        let current = order[k];
        active = prune(&active, &current);
        proof {
            if k == 0 {
                reveal(Seq::filter);
                assert(order@.take(0) =~= Seq::empty());
            } else {
                lemma_prune(order@, k as int);
            }
            assert(active@ == partners(order@, k as int));
        }
        let ghost found = pairs@;
        let mut i: usize = 0;
        while i < active.len()
            invariant
                i <= active@.len(),
                pairs@ == found + active@.take(i as int).map_values(paired_with(current.id)),
            decreases active@.len() - i,
        {
            pairs.push((active[i].id, current.id));
            i += 1;
            assert(pairs@ =~= found + active@.take(i as int).map_values(paired_with(current.id)));
        }
        proof {
            assert(active@.take(i as int) =~= active@);
        }
        active.push(current);
        k += 1;
    }
    pairs
}

/// Projects every entity of `store` onto the x axis.
pub fn project(store: &EntityManager) -> (out: Vec<Interval>)
    ensures
        out@ == intervals(store@),
{
    let n: usize = store.len();
    let mut out: Vec<Interval> = Vec::new();
    let mut i: usize = 0;
    while i < n
        invariant
            i <= n,
            n == store@.entities.len(),
            out@.len() == i,
            forall|p: int| 0 <= p < i ==> out@[p] == interval_at(store@, p),
        decreases n - i,
    {
        let entity = store.entity_at(i);
        out.push(
            Interval {
                min_x: entity.bounding_box.left(),
                max_x: entity.bounding_box.right(),
                id: store.id_at(i),
            },
        );
        i += 1;
    }
    assert(out@ =~= intervals(store@));
    out
}

} // verus!
