//! The nearest-place lookup over a fixed set of places.

use vstd::prelude::*;
use vstd::multiset::Multiset;
use rstar::primitives::GeomWithData;
use rstar::RTree;
use crate::city::{valid_coordinate, City};

verus! {

/// An R-tree of points in millionths of a degree, each tagged with the
/// position of its place in a list.
#[verifier::external_body]
pub struct PointTree {
    tree: RTree<GeomWithData<[i64; 2], usize>>,
}

/// The points that a tree holds, each as (latitude, longitude, tag).
pub uninterp spec fn tree_points(t: PointTree) -> Multiset<(i64, i64, usize)>;

/// Relies on `RTree::bulk_load`: the tree holds exactly the given points.
#[verifier::external_body]
fn bulk_load(points: Vec<(i64, i64, usize)>) -> (r: PointTree)
    ensures
        tree_points(r) == points@.to_multiset(),
{
    let items = points.into_iter().map(|(lat, lon, i)| GeomWithData::new([lat, lon], i)).collect();
    PointTree { tree: RTree::bulk_load(items) }
}

/// The squared distance between two points in the plane of (latitude, longitude).
pub open spec fn dist2(lat1: int, lon1: int, lat2: int, lon2: int) -> int {
    (lat1 - lat2) * (lat1 - lat2) + (lon1 - lon2) * (lon1 - lon2)
}

/// Every point of the multiset is a valid coordinate.
pub open spec fn points_valid(m: Multiset<(i64, i64, usize)>) -> bool {
    forall|p: (i64, i64, usize)| #[trigger] m.count(p) > 0 ==> valid_coordinate(p.0 as int, p.1 as int)
}

/// Relies on `RTree::nearest_neighbor`: it returns a point of the tree at the
/// least squared distance from the query (exact on integer coordinates, which
/// stay far from overflow here), and `None` only for an empty tree.
#[verifier::external_body]
fn nearest_point(t: &PointTree, lat: i64, lon: i64) -> (r: Option<(i64, i64, usize)>)
    requires
        valid_coordinate(lat as int, lon as int),
        points_valid(tree_points(*t)),
    ensures
        r is None <==> tree_points(*t).len() == 0,
        r matches Some(p) ==> {
            &&& tree_points(*t).count(p) > 0
            &&& forall|q: (i64, i64, usize)|
                #[trigger] tree_points(*t).count(q) > 0 ==> dist2(p.0 as int, p.1 as int, lat as int, lon as int)
                    <= dist2(q.0 as int, q.1 as int, lat as int, lon as int)
        },
{
    t.tree.nearest_neighbor(&[lat, lon]).map(|g| (g.geom()[0], g.geom()[1], g.data))
}

/// The tagged points of a list of places: each place's coordinate, tagged
/// with its position.
pub open spec fn city_points(cities: Seq<City>) -> Seq<(i64, i64, usize)> {
    cities.map(|i: int, c: City| (c.lat_spec() as i64, c.lon_spec() as i64, i as usize))
}

/// The squared distance from a place to the query point.
pub open spec fn city_dist2(c: City, q: City) -> int {
    dist2(c.lat_spec(), c.lon_spec(), q.lat_spec(), q.lon_spec())
}

/// Position `i` holds a place nearest to the query among all of them.
pub open spec fn is_nearest(cities: Seq<City>, q: City, i: int) -> bool {
    &&& 0 <= i < cities.len()
    &&& forall|j: int|
        0 <= j < cities.len() ==> city_dist2(cities[i], q) <= city_dist2(#[trigger] cities[j], q)
}

/// A fixed set of places, with a spatial index for nearest-place queries.
pub struct LocationIndex {
    tree: PointTree,
    cities: Vec<City>,
}

impl View for LocationIndex {
    type V = Seq<City>;

    closed spec fn view(&self) -> Seq<City> {
        self.cities@
    }
}

impl LocationIndex {
    #[verifier::type_invariant]
    spec fn inv(self) -> bool {
        &&& tree_points(self.tree) == city_points(self.cities@).to_multiset()
        &&& self.cities@.len() <= usize::MAX
        &&& forall|i: int| 0 <= i < self.cities@.len() ==> valid_coordinate(
            (#[trigger] self.cities@[i]).lat_spec(),
            self.cities@[i].lon_spec(),
        )
    }

    /// The number of places.
    pub fn len(&self) -> (r: usize)
        ensures
            r == self@.len(),
    {
        self.cities.len()
    }

    /// The place at position `i`.
    pub fn city(&self, i: usize) -> (r: &City)
        requires
            i < self@.len(),
        ensures
            *r == self@[i as int],
    {
        &self.cities[i]
    }

    /// The position of a place nearest to `query` in the (latitude, longitude)
    /// plane, or `None` when there are no places.
    pub fn nearest_index(&self, query: &City) -> (r: Option<usize>)
        ensures
            r is None <==> self@.len() == 0,
            r matches Some(i) ==> is_nearest(self@, *query, i as int),
    {
        proof {
            use_type_invariant(self);
            broadcast use vstd::seq_lib::group_to_multiset_ensures;
        }
        let ghost pts = city_points(self.cities@);
        let lat = query.lat();
        let lon = query.lon();
        assert(points_valid(tree_points(self.tree))) by {
            assert forall|p: (i64, i64, usize)| #[trigger] tree_points(self.tree).count(p) > 0
                implies valid_coordinate(p.0 as int, p.1 as int) by {
                assert(pts.contains(p));
                let j = choose|j: int| 0 <= j < pts.len() && pts[j] == p;
                assert(valid_coordinate(self.cities@[j].lat_spec(), self.cities@[j].lon_spec()));
            }
        }
        match nearest_point(&self.tree, lat, lon) {
            None => {
                assert(pts.len() == 0);
                None
            },
            Some(p) => {
                assert(pts.contains(p));
                let ghost j = choose|j: int| 0 <= j < pts.len() && pts[j] == p;
                assert(p.2 == j);
                assert forall|k: int| 0 <= k < self@.len()
                    implies city_dist2(self@[j], *query) <= city_dist2(#[trigger] self@[k], *query) by {
                    assert(pts[k] == city_points(self.cities@)[k]);
                    assert(tree_points(self.tree).count(pts[k]) > 0);
                }
                Some(p.2)
            },
        }
    }

    /// A place nearest to `query`, or `None` when there are no places.
    pub fn nearest_neighbor(&self, query: &City) -> (r: Option<&City>)
        ensures
            r is None <==> self@.len() == 0,
            r matches Some(c) ==> exists|i: int| is_nearest(self@, *query, i) && *c == self@[i],
    {
        match self.nearest_index(query) {
            Some(i) => Some(self.city(i)),
            None => None,
        }
    }
}

/// The index over `cities`, which keep their order.
pub fn generate_coord_rtree(cities: Vec<City>) -> (r: LocationIndex)
    ensures
        r@ == cities@,
{
    let mut points: Vec<(i64, i64, usize)> = Vec::new();
    let mut i: usize = 0;
    while i < cities.len()
        invariant
            i <= cities@.len(),
            points@ == city_points(cities@).take(i as int),
            forall|j: int| 0 <= j < i ==> valid_coordinate(
                (#[trigger] cities@[j]).lat_spec(),
                cities@[j].lon_spec(),
            ),
        decreases cities@.len() - i,
    {
        let c = &cities[i];
        points.push((c.lat(), c.lon(), i));
        assert(points@ =~= city_points(cities@).take(i + 1));
        i = i + 1;
    }
    assert(points@ =~= city_points(cities@));
    let tree = bulk_load(points);
    LocationIndex { tree, cities }
}

/// Shown when no place is known.
pub const UNKNOWN_PLACE: &'static str = "😭";

impl LocationIndex {
    /// The name of a place nearest to `query`, or `UNKNOWN_PLACE` when there
    /// are no places.
    pub fn place_name(&self, query: &City) -> (r: String)
        ensures
            self@.len() == 0 ==> r@ == UNKNOWN_PLACE@,
            self@.len() > 0 ==> exists|i: int| is_nearest(self@, *query, i) && r@ == self@[i].name_spec(),
    {
        match self.nearest_index(query) {
            Some(i) => self.city(i).name().clone(),
            None => String::from_str(UNKNOWN_PLACE),
        }
    }
}

/// A query at the coordinate of a place finds a place at distance zero,
/// at that very coordinate; when no other place shares the coordinate, it
/// finds that place itself.
pub proof fn lemma_nearest_at_own_coordinate(cities: Seq<City>, q: City, j: int, i: int)
    requires
        0 <= j < cities.len(),
        cities[j].lat_spec() == q.lat_spec(),
        cities[j].lon_spec() == q.lon_spec(),
        is_nearest(cities, q, i),
    ensures
        city_dist2(cities[i], q) == 0,
        cities[i].lat_spec() == q.lat_spec(),
        cities[i].lon_spec() == q.lon_spec(),
        (forall|k: int|
            0 <= k < cities.len() && k != j ==> (#[trigger] cities[k]).lat_spec() != q.lat_spec()
                || cities[k].lon_spec() != q.lon_spec()) ==> i == j,
{
    let a = cities[i].lat_spec() - q.lat_spec();
    let b = cities[i].lon_spec() - q.lon_spec();
    assert(city_dist2(cities[j], q) == 0);
    assert(city_dist2(cities[i], q) == a * a + b * b);
    assert(a * a >= 0 && b * b >= 0) by (nonlinear_arith);
    assert(a * a == 0 ==> a == 0) by (nonlinear_arith);
    assert(b * b == 0 ==> b == 0) by (nonlinear_arith);
}

} // verus!
