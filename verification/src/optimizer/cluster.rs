//! Footprint clustering: a stable reordering that brings items with similar base
//! footprints together.

use vstd::prelude::*;
use vstd::seq_lib::{lemma_multiset_commutative, to_multiset_build};
use crate::fixed::{abs, abs_diff, max, MAX_LENGTH, SCALE};
use crate::model::Box3D;
use crate::optimizer::sorting::all_items_valid;

verus! {

/// A group of items with similar footprints: the running average footprint of its
/// members, and the members in the order in which they joined.
#[derive(Debug)]
pub struct ObjectCluster {
    pub representative: (i64, i64),
    pub members: Vec<Box3D>,
}

/// The mathematical content of a cluster.
pub struct ClusterModel {
    pub representative: (i64, i64),
    pub members: Seq<Box3D>,
}

impl View for ObjectCluster {
    type V = ClusterModel;

    open spec fn view(&self) -> ClusterModel {
        ClusterModel { representative: self.representative, members: self.members@ }
    }
}

/// The running average after one more value: the average of `count` values with `value`
/// taken in, rounded down.
pub open spec fn running_average(average: int, count: int, value: int) -> int {
    (average * count + value) / (count + 1)
}

impl ClusterModel {
    /// The cluster of a single item.
    pub open spec fn single(object: Box3D) -> ClusterModel {
        ClusterModel {
            representative: (object.dims.0, object.dims.1),
            members: seq![object],
        }
    }

    /// The cluster with one more member, its footprint taken into the running average.
    pub open spec fn with_member(self, object: Box3D) -> ClusterModel {
        ClusterModel {
            representative: (
                running_average(
                    self.representative.0 as int,
                    self.members.len() as int,
                    object.dims.0 as int,
                ) as i64,
                running_average(
                    self.representative.1 as int,
                    self.members.len() as int,
                    object.dims.1 as int,
                ) as i64,
            ),
            members: self.members.push(object),
        }
    }

    /// The representative footprint is a footprint of acceptable lengths, and there is
    /// at least one member.
    pub open spec fn valid(self) -> bool {
        &&& 1 <= self.representative.0 <= MAX_LENGTH
        &&& 1 <= self.representative.1 <= MAX_LENGTH
        &&& self.members.len() >= 1
    }
}

/// Relative difference of two lengths: their distance over the largest of their
/// magnitudes and one unit, as a fixed-point ratio rounded down.
pub open spec fn relative_difference(a: int, b: int) -> int {
    abs(a - b) * SCALE / max(max(abs(a), abs(b)), SCALE as int)
}

/// Two footprints are similar: the tolerance is positive and the relative difference
/// is within it for the width and for the depth.
pub open spec fn similar_footprints(tolerance: int, a: (i64, i64), b: (i64, i64)) -> bool {
    &&& tolerance > 0
    &&& relative_difference(a.0 as int, b.0 as int) <= tolerance
    &&& relative_difference(a.1 as int, b.1 as int) <= tolerance
}

/// Index of the first cluster whose representative footprint is similar to `dims`;
/// the number of clusters when there is none.
pub open spec fn first_similar(clusters: Seq<ClusterModel>, dims: (i64, i64), tolerance: int) -> int
    decreases clusters.len(),
{
    if clusters.len() == 0 {
        0
    } else {
        let before = first_similar(clusters.drop_last(), dims, tolerance);
        if before < clusters.len() - 1 {
            before
        } else if similar_footprints(tolerance, clusters.last().representative, dims) {
            clusters.len() - 1
        } else {
            clusters.len() as int
        }
    }
}

/// The clusters after one more item: it joins the first cluster with a similar
/// footprint, or starts a new cluster at the end.
pub open spec fn join_cluster(clusters: Seq<ClusterModel>, object: Box3D, tolerance: int) -> Seq<
    ClusterModel,
> {
    let at = first_similar(clusters, (object.dims.0, object.dims.1), tolerance);
    if at < clusters.len() {
        clusters.update(at, clusters[at].with_member(object))
    } else {
        clusters.push(ClusterModel::single(object))
    }
}

/// The clusters that the items form, taken in order.
pub open spec fn clusters_of(objects: Seq<Box3D>, tolerance: int) -> Seq<ClusterModel>
    decreases objects.len(),
{
    if objects.len() == 0 {
        Seq::<ClusterModel>::empty()
    } else {
        join_cluster(clusters_of(objects.drop_last(), tolerance), objects.last(), tolerance)
    }
}

/// The members of the clusters, cluster after cluster.
pub open spec fn all_members(clusters: Seq<ClusterModel>) -> Seq<Box3D>
    decreases clusters.len(),
{
    if clusters.len() == 0 {
        Seq::<Box3D>::empty()
    } else {
        all_members(clusters.drop_last()) + clusters.last().members
    }
}

/// The items reordered by footprint clusters: unchanged when the tolerance is zero,
/// else the members of the clusters, in the order in which the clusters were started.
pub open spec fn clustered(objects: Seq<Box3D>, tolerance: int) -> Seq<Box3D> {
    if tolerance <= 0 {
        objects
    } else {
        all_members(clusters_of(objects, tolerance))
    }
}

/// The first similar cluster is the first: it is similar, and none before it is.
pub proof fn lemma_first_similar(clusters: Seq<ClusterModel>, dims: (i64, i64), tolerance: int)
    ensures
        0 <= first_similar(clusters, dims, tolerance) <= clusters.len(),
        first_similar(clusters, dims, tolerance) < clusters.len() ==> similar_footprints(
            tolerance,
            clusters[first_similar(clusters, dims, tolerance)].representative,
            dims,
        ),
        forall|k: int|
            0 <= k < first_similar(clusters, dims, tolerance) ==> !similar_footprints(
                tolerance,
                (#[trigger] clusters[k]).representative,
                dims,
            ),
    decreases clusters.len(),
{
    if clusters.len() > 0 {
        let rest = clusters.drop_last();
        lemma_first_similar(rest, dims, tolerance);
        let before = first_similar(rest, dims, tolerance);
        if before < clusters.len() - 1 {
            assert(rest[before] == clusters[before]);
        }
        assert forall|k: int| 0 <= k < first_similar(clusters, dims, tolerance)
            implies !similar_footprints(tolerance, (#[trigger] clusters[k]).representative, dims) by {
            if k < rest.len() {
                assert(rest[k] == clusters[k]);
            }
        }
    }
}

/// An index with a similar cluster and none before it is the first similar one.
pub proof fn lemma_first_similar_is(
    clusters: Seq<ClusterModel>,
    dims: (i64, i64),
    tolerance: int,
    at: int,
)
    requires
        0 <= at <= clusters.len(),
        at < clusters.len() ==> similar_footprints(tolerance, clusters[at].representative, dims),
        forall|k: int|
            0 <= k < at ==> !similar_footprints(
                tolerance,
                (#[trigger] clusters[k]).representative,
                dims,
            ),
    ensures
        first_similar(clusters, dims, tolerance) == at,
{
    lemma_first_similar(clusters, dims, tolerance);
    let f = first_similar(clusters, dims, tolerance);
    if f < at {
        assert(!similar_footprints(tolerance, clusters[f].representative, dims));
    }
}

/// One more member in one cluster is one more element among all members.
pub proof fn lemma_all_members_update(clusters: Seq<ClusterModel>, at: int, object: Box3D)
    requires
        0 <= at < clusters.len(),
    ensures
        all_members(clusters.update(at, clusters[at].with_member(object))).to_multiset()
            == all_members(clusters).to_multiset().insert(object),
    decreases clusters.len(),
{
    let updated = clusters.update(at, clusters[at].with_member(object));
    let rest = clusters.drop_last();
    if at == clusters.len() - 1 {
        assert(updated.drop_last() =~= rest);
        let m = clusters.last().members;
        assert(all_members(rest) + m.push(object) =~= (all_members(rest) + m).push(object));
        to_multiset_build(all_members(rest) + m, object);
    } else {
        assert(updated.drop_last() =~= rest.update(at, rest[at].with_member(object)));
        assert(updated.last() == clusters.last());
        lemma_all_members_update(rest, at, object);
        let m = clusters.last().members;
        lemma_multiset_commutative(all_members(updated.drop_last()), m);
        lemma_multiset_commutative(all_members(rest), m);
        assert(all_members(updated).to_multiset() =~= all_members(clusters).to_multiset().insert(
            object,
        ));
    }
}

/// A new cluster of one item is one more element among all members.
pub proof fn lemma_all_members_push(clusters: Seq<ClusterModel>, object: Box3D)
    ensures
        all_members(clusters.push(ClusterModel::single(object))) == all_members(clusters).push(
            object,
        ),
        all_members(clusters.push(ClusterModel::single(object))).to_multiset() == all_members(
            clusters,
        ).to_multiset().insert(object),
{
    let pushed = clusters.push(ClusterModel::single(object));
    assert(pushed.drop_last() =~= clusters);
    assert(all_members(clusters) + seq![object] =~= all_members(clusters).push(object));
    to_multiset_build(all_members(clusters), object);
}

/// Clustering keeps the items: the reordered sequence has the same elements, each as
/// often as before, and the same length.
pub proof fn lemma_clustered_is_permutation(objects: Seq<Box3D>, tolerance: int)
    ensures
        clustered(objects, tolerance).to_multiset() == objects.to_multiset(),
        clustered(objects, tolerance).len() == objects.len(),
        tolerance <= 0 ==> clustered(objects, tolerance) == objects,
{
    if tolerance > 0 {
        lemma_clusters_elements(objects, tolerance);
    }
    vstd::seq_lib::to_multiset_len(objects);
    vstd::seq_lib::to_multiset_len(clustered(objects, tolerance));
}

/// The members of the clusters of a sequence are the elements of the sequence.
pub proof fn lemma_clusters_elements(objects: Seq<Box3D>, tolerance: int)
    ensures
        all_members(clusters_of(objects, tolerance)).to_multiset() == objects.to_multiset(),
    decreases objects.len(),
{
    if objects.len() == 0 {
        assert(all_members(clusters_of(objects, tolerance)) =~= objects);
    } else {
        let rest = objects.drop_last();
        let o = objects.last();
        lemma_clusters_elements(rest, tolerance);
        let clusters = clusters_of(rest, tolerance);
        lemma_first_similar(clusters, (o.dims.0, o.dims.1), tolerance);
        let at = first_similar(clusters, (o.dims.0, o.dims.1), tolerance);
        if at < clusters.len() {
            lemma_all_members_update(clusters, at, o);
        } else {
            lemma_all_members_push(clusters, o);
        }
        to_multiset_build(rest, o);
        assert(rest.push(o) =~= objects);
    }
}

/// The running average of acceptable lengths is an acceptable length.
pub proof fn lemma_running_average(average: int, count: int, value: int)
    requires
        1 <= average <= MAX_LENGTH,
        1 <= value <= MAX_LENGTH,
        1 <= count,
    ensures
        1 <= running_average(average, count, value) <= MAX_LENGTH,
{
    let m = MAX_LENGTH as int;
    assert(count + 1 <= average * count + value <= m * (count + 1)) by (nonlinear_arith)
        requires
            1 <= average <= m,
            1 <= value <= m,
            1 <= count,
    ;
    assert(1 <= (average * count + value) / (count + 1) <= m) by (nonlinear_arith)
        requires
            count + 1 <= average * count + value <= m * (count + 1),
            count + 1 > 0,
    ;
}

impl ObjectCluster {
    /// The cluster of a single item.
    pub fn new(object: Box3D) -> (c: Self)
        ensures
            c@ == ClusterModel::single(object),
    {
        let mut members: Vec<Box3D> = Vec::new();
        members.push(object);
        let c = Self { representative: (object.dims.0, object.dims.1), members };
        assert(c@.members =~= seq![object]);
        c
    }

    /// Adds a member and takes its footprint into the running average.
    pub fn add(&mut self, object: Box3D)
        requires
            old(self)@.valid(),
            object.valid(),
        ensures
            final(self)@ == old(self)@.with_member(object),
            final(self)@.valid(),
    {
        let count: i128 = self.members.len() as i128;
        let (rw, rd) = self.representative;
        proof {
            lemma_running_average(rw as int, count as int, object.dims.0 as int);
            lemma_running_average(rd as int, count as int, object.dims.1 as int);
            assert(0 <= rw * count <= MAX_LENGTH * 0x1_0000_0000_0000_0000) by (nonlinear_arith)
                requires
                    1 <= rw <= MAX_LENGTH,
                    0 <= count <= 0x1_0000_0000_0000_0000,
            ;
            assert(0 <= rd * count <= MAX_LENGTH * 0x1_0000_0000_0000_0000) by (nonlinear_arith)
                requires
                    1 <= rd <= MAX_LENGTH,
                    0 <= count <= 0x1_0000_0000_0000_0000,
            ;
        }
        let new_w: i128 = (rw as i128 * count + object.dims.0 as i128) / (count + 1);
        let new_d: i128 = (rd as i128 * count + object.dims.1 as i128) / (count + 1);
        self.representative = (new_w as i64, new_d as i64);
        self.members.push(object);
    }

    /// The members in the order in which they joined.
    pub fn into_members(self) -> (r: Vec<Box3D>)
        ensures
            r@ == self@.members,
    {
        self.members
    }
}

/// The footprint clustering strategy with its relative tolerance.
#[derive(Clone, Copy, Debug)]
pub struct FootprintClusterStrategy {
    pub tolerance: i64,
}

impl FootprintClusterStrategy {
    /// The strategy with the given tolerance.
    pub fn new(tolerance: i64) -> (s: Self)
        ensures
            s.tolerance == tolerance,
    {
        Self { tolerance }
    }

    /// Relative difference of two lengths.
    pub fn relative_diff(&self, a: i64, b: i64) -> (r: i64)
        requires
            0 <= a <= MAX_LENGTH,
            0 <= b <= MAX_LENGTH,
        ensures
            r == relative_difference(a as int, b as int),
            0 <= r <= SCALE,
    {
        let larger: i64 = if a >= b { a } else { b };
        let denom: i64 = if larger >= SCALE { larger } else { SCALE };
        let diff: i64 = abs_diff(a, b) as i64;
        assert(0 <= diff * SCALE <= MAX_LENGTH * SCALE) by (nonlinear_arith)
            requires
                0 <= diff <= MAX_LENGTH,
        ;
        assert(0 <= (diff * SCALE) / (denom as int) <= SCALE) by (nonlinear_arith)
            requires
                0 <= diff <= denom,
                denom >= SCALE,
                SCALE == 1_000_000,
        ;
        (diff * SCALE) / denom
    }

    /// Whether two footprints are similar under this strategy.
    pub fn compatible(&self, a: (i64, i64), b: (i64, i64)) -> (r: bool)
        requires
            0 <= a.0 <= MAX_LENGTH,
            0 <= a.1 <= MAX_LENGTH,
            0 <= b.0 <= MAX_LENGTH,
            0 <= b.1 <= MAX_LENGTH,
        ensures
            r == similar_footprints(self.tolerance as int, a, b),
    {
        if self.tolerance <= 0 {
            return false;
        }
        let width_close: bool = self.relative_diff(a.0, b.0) <= self.tolerance;
        let depth_close: bool = self.relative_diff(a.1, b.1) <= self.tolerance;
        width_close && depth_close
    }

    /// Reorders the items so that items with similar footprints follow each other:
    /// each item joins the first cluster whose running average footprint is similar to
    /// its own, or starts a new one; the result lists the clusters in the order in
    /// which they were started, each with its members in the order in which they came. With a
    /// tolerance of zero the items stay as they are.
    pub fn reorder(&self, objects: Vec<Box3D>) -> (r: Vec<Box3D>)
        requires
            all_items_valid(objects@),
        ensures
            r@ == clustered(objects@, self.tolerance as int),
            r@.to_multiset() == objects@.to_multiset(),
            r@.len() == objects@.len(),
            self.tolerance <= 0 ==> r@ == objects@,
            all_items_valid(r@),
    {
        proof {
            lemma_clustered_is_permutation(objects@, self.tolerance as int);
        }
        if self.tolerance <= 0 {
            return objects;
        }
        let mut clusters: Vec<ObjectCluster> = Vec::new();
        let mut i: usize = 0;
        while i < objects.len()
            invariant
                i <= objects@.len(),
                self.tolerance > 0,
                all_items_valid(objects@),
                clusters@.len() == clusters_of(objects@.take(i as int), self.tolerance as int).len(),
                forall|k: int|
                    0 <= k < clusters@.len() ==> (#[trigger] clusters@[k])@ == clusters_of(
                        objects@.take(i as int),
                        self.tolerance as int,
                    )[k],
                forall|k: int|
                    0 <= k < clusters@.len() ==> (#[trigger] clusters@[k])@.valid()
                        && all_items_valid(clusters@[k]@.members),
            decreases objects@.len() - i,
        {
            let object: Box3D = objects[i];
            let dims: (i64, i64) = (object.dims.0, object.dims.1);
            let ghost model = clusters_of(objects@.take(i as int), self.tolerance as int);
            assert(object.valid());
            let mut at: usize = 0;
            while at < clusters.len() && !self.compatible(clusters[at].representative, dims)
                invariant
                    at <= clusters@.len(),
                    object.valid(),
                    dims == (object.dims.0, object.dims.1),
                    clusters@.len() == model.len(),
                    forall|k: int| 0 <= k < clusters@.len() ==> (#[trigger] clusters@[k])@ == model[k],
                    forall|k: int| 0 <= k < clusters@.len() ==> (#[trigger] clusters@[k])@.valid(),
                    forall|k: int|
                        0 <= k < at ==> !similar_footprints(
                            self.tolerance as int,
                            (#[trigger] model[k]).representative,
                            dims,
                        ),
                decreases clusters@.len() - at,
            {
                assert(clusters@[at as int]@ == model[at as int]);
                at = at + 1;
            }
            proof {
                if at < clusters@.len() {
                    assert(clusters@[at as int]@ == model[at as int]);
                }
                lemma_first_similar_is(model, dims, self.tolerance as int, at as int);
                assert(objects@.take(i as int + 1).drop_last() =~= objects@.take(i as int));
            }
            if at < clusters.len() {
                let ghost before = clusters@;
                clusters[at].add(object);
                proof {
                    let after = model.update(at as int, model[at as int].with_member(object));
                    assert forall|k: int| 0 <= k < clusters@.len() implies (
                    #[trigger] clusters@[k])@ == after[k] by {
                        if k != at {
                            assert(clusters@[k] == before[k]);
                        }
                    }
                    assert forall|k: int| 0 <= k < clusters@.len() implies (
                    #[trigger] clusters@[k])@.valid() && all_items_valid(clusters@[k]@.members) by {
                        if k != at {
                            assert(clusters@[k] == before[k]);
                        } else {
                            let ms = clusters@[k]@.members;
                            assert forall|m: int| 0 <= m < ms.len() implies (
                            #[trigger] ms[m]).valid() by {
                                if m < ms.len() - 1 {
                                    assert(before[k]@.members[m].valid());
                                }
                            }
                        }
                    }
                }
            } else {
                clusters.push(ObjectCluster::new(object));
            }
            i = i + 1;
        }
        assert(objects@.take(i as int) =~= objects@);
        let ghost model = clusters_of(objects@, self.tolerance as int);
        let mut out: Vec<Box3D> = Vec::new();
        let mut c: usize = 0;
        while c < clusters.len()
            invariant
                c <= clusters@.len(),
                clusters@.len() == model.len(),
                forall|k: int| 0 <= k < clusters@.len() ==> (#[trigger] clusters@[k])@ == model[k],
                forall|k: int|
                    0 <= k < clusters@.len() ==> all_items_valid((#[trigger] clusters@[k])@.members),
                out@ == all_members(model.take(c as int)),
                all_items_valid(out@),
            decreases clusters@.len() - c,
        {
            let members = &clusters[c].members;
            let mut m: usize = 0;
            let ghost start = out@;
            while m < members.len()
                invariant
                    m <= members@.len(),
                    out@ == start + members@.take(m as int),
                    all_items_valid(out@),
                    all_items_valid(members@),
                decreases members@.len() - m,
            {
                out.push(members[m]);
                proof {
                    assert(out@ =~= start + members@.take(m as int + 1));
                }
                m = m + 1;
            }
            proof {
                assert(members@.take(m as int) =~= members@);
                assert(model.take(c as int + 1).drop_last() =~= model.take(c as int));
                assert(clusters@[c as int]@ == model[c as int]);
            }
            c = c + 1;
        }
        assert(model.take(c as int) =~= model);
        out
    }
}

} // verus!
