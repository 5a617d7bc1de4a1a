//! Data shared by the mesh topologies, and the sampling of elevation and
//! colour onto a lattice, tile by tile.

use crate::common::color::{ColorMapping, RGB};
use crate::common::args::DataSourceName;
use crate::common::types::{GeoPoint, GeoPointIndex, Height, HeightInt, TextureCoordinate};
use crate::input::dem::arcsec3::{DemArc3SecData, DemArc3SecOpts, DEFAULT_NODATA, DEFAULT_SEA_LEVEL};
use crate::input::types::{tile_of, DataSourceOpts, TileData, TileID};
use std::collections::HashMap;
use vstd::prelude::*;

verus! {

broadcast use vstd::std_specs::hash::group_hash_axioms;

/// The lattice: the point of lattice index `k` stands at position `k`.
pub type GeoPoints = Vec<GeoPoint>;

/// For each texture point, the lattice point it takes its position from.
pub type PointsMapping = Vec<GeoPointIndex>;

/// Triangles, each a triple of texture point indices.
pub type Elements = Vec<(GeoPointIndex, GeoPointIndex, GeoPointIndex)>;

/// Elevation of each lattice point.
pub type Heights = Vec<Height>;

/// Colour of each lattice point.
pub type Colors = Vec<RGB>;

/// Texture coordinates `(u, v)` of each texture point.
pub type TextureCoordinates = Vec<(TextureCoordinate, TextureCoordinate)>;

/// The lattice points of one tile, each with its lattice index.
pub type TileGroup = Vec<(GeoPointIndex, GeoPoint)>;

/// The points of a model.
#[derive(Debug)]
pub struct ModelPoints {
    pub geopoints: GeoPoints,
    pub points_map_opt: Option<PointsMapping>,
}

/// Model type specific data
#[derive(Debug)]
pub enum ModelTypeData {
    Color(Colors),
    Texture(TextureCoordinates),
}

/// The heights and colours that the workers share.
pub struct MutexStruct {
    pub heights: Heights,
    pub colors: Colors,
}

/// The number under which a tile is filed: no two tiles share one.
pub open spec fn tile_key(t: TileID) -> u32 {
    ((t.lon + 32768) * 65536 + (t.lat + 32768)) as u32
}

/// The points among the first `n` of the lattice that a tile holds, each
/// with its lattice index, in the order of the lattice.
pub open spec fn group_upto(points: Seq<GeoPoint>, t: TileID, n: int) -> Seq<
    (GeoPointIndex, GeoPoint),
>
    decreases n,
{
    if n <= 0 {
        Seq::empty()
    } else {
        let rest = group_upto(points, t, n - 1);
        if tile_of(points[n - 1]) == t {
            rest.push(((n - 1) as usize, points[n - 1]))
        } else {
            rest
        }
    }
}

/// The lattice points that a tile holds.
pub open spec fn tile_group(points: Seq<GeoPoint>, t: TileID) -> Seq<(GeoPointIndex, GeoPoint)> {
    group_upto(points, t, points.len() as int)
}

/// Geopoints to tiles mapping data
pub struct GeoPointsToTilesMapping {
    pub groups: HashMap<u32, TileGroup>,
}

impl GeoPointsToTilesMapping {
    /// The points filed under a tile: none where the tile has no entry.
    pub open spec fn group_of(&self, t: TileID) -> Seq<(GeoPointIndex, GeoPoint)> {
        if self.groups@.contains_key(tile_key(t)) {
            self.groups@[tile_key(t)]@
        } else {
            Seq::empty()
        }
    }

    /// The mapping files the points of the lattice by tile: under each tile
    /// the points that it holds, and no entry for a tile that holds none.
    pub open spec fn partitions(&self, points: Seq<GeoPoint>) -> bool {
        forall|t: TileID|
            {
                &&& #[trigger] self.group_of(t) == tile_group(points, t)
                &&& self.groups@.contains_key(tile_key(t)) ==> tile_group(points, t).len() > 0
            }
    }

    /// The points of a tile, where it holds any.
    pub fn get(&self, tile_id: &TileID) -> (group: Option<&TileGroup>)
        ensures
            match group {
                Some(g) => g@ == self.group_of(*tile_id) && self.groups@.contains_key(
                    tile_key(*tile_id),
                ),
                None => self.group_of(*tile_id).len() == 0 && !self.groups@.contains_key(
                    tile_key(*tile_id),
                ),
            },
    {
        let key: u32 = make_tile_key(tile_id);
        self.groups.get(&key)
    }
}

/// The number under which a tile is filed.
pub fn make_tile_key(t: &TileID) -> (key: u32)
    ensures
        key == tile_key(*t),
{
    ((t.lon as i32 + 32768) as u32) * 65536 + ((t.lat as i32 + 32768) as u32)
}

/// Two tiles filed under one number are one tile.
pub proof fn lemma_tile_key_injective(a: TileID, b: TileID)
    requires
        tile_key(a) == tile_key(b),
    ensures
        a == b,
{
}

/// Every point of a tile's group lies in the tile and carries its own
/// lattice index, and every point of the lattice that lies in the tile is
/// in the group: each lattice point is in the group of exactly one tile.
pub proof fn lemma_group_members(points: Seq<GeoPoint>, t: TileID, n: int)
    requires
        0 <= n <= points.len() <= usize::MAX,
    ensures
        forall|e: int|
            0 <= e < group_upto(points, t, n).len() ==> {
                let entry = #[trigger] group_upto(points, t, n)[e];
                &&& entry.0 < n
                &&& entry.1 == points[entry.0 as int]
                &&& tile_of(entry.1) == t
            },
        forall|e: int, f: int|
            0 <= e < f < group_upto(points, t, n).len() ==> group_upto(points, t, n)[e].0
                < group_upto(points, t, n)[f].0,
        forall|k: int|
            0 <= k < n && tile_of(points[k]) == t ==> exists|e: int|
                0 <= e < group_upto(points, t, n).len() && #[trigger] group_upto(points, t, n)[e]
                    == (k as usize, points[k]),
        group_upto(points, t, n).len() <= n,
    decreases n,
{
    if n > 0 {
        lemma_group_members(points, t, n - 1);
        let rest = group_upto(points, t, n - 1);
        let all = group_upto(points, t, n);
        assert forall|e: int| 0 <= e < all.len() implies {
            let entry = #[trigger] all[e];
            &&& entry.0 < n
            &&& entry.1 == points[entry.0 as int]
            &&& tile_of(entry.1) == t
        } by {
            if e < rest.len() {
                assert(all[e] == rest[e]);
            }
        }
        assert forall|e: int, f: int| 0 <= e < f < all.len() implies all[e].0 < all[f].0 by {
            assert(all[e] == rest[e]);
            if f < rest.len() {
                assert(all[f] == rest[f]);
            }
        }
        assert forall|k: int| 0 <= k < n && tile_of(points[k]) == t implies exists|e: int|
            0 <= e < all.len() && #[trigger] all[e] == (k as usize, points[k]) by {
            if k < n - 1 {
                let e = choose|e: int|
                    0 <= e < rest.len() && #[trigger] rest[e] == (k as usize, points[k]);
                assert(all[e] == rest[e]);
            } else {
                assert(all[all.len() - 1] == (k as usize, points[k]));
            }
        }
    }
}

/// Creates geopoints to tiles mapping
pub fn create_geopoints_tiles<O: DataSourceOpts>(opts: &O, geopoints: &GeoPoints) -> (geopoints_tiles:
    GeoPointsToTilesMapping)
    requires
        forall|k: int| 0 <= k < geopoints.len() ==> (#[trigger] geopoints[k]).wf(),
    ensures
        geopoints_tiles.partitions(geopoints@),
{
    let ghost points = geopoints@;
    let mut groups: HashMap<u32, TileGroup> = HashMap::new();
    let mut k: usize = 0;
    while k < geopoints.len()
        invariant
            points == geopoints@,
            k <= points.len(),
            forall|i: int| 0 <= i < points.len() ==> (#[trigger] points[i]).wf(),
            forall|t: TileID|
                {
                    &&& groups@.contains_key(#[trigger] tile_key(t)) ==> groups@[tile_key(t)]@
                        == group_upto(points, t, k as int) && group_upto(points, t, k as int).len()
                        > 0
                    &&& !groups@.contains_key(tile_key(t)) ==> group_upto(points, t, k as int).len()
                        == 0
                },
        decreases points.len() - k,
    {
        let geo_point: GeoPoint = geopoints[k];
        let tile_id: TileID = opts.find_tile_id(&geo_point);
        let key: u32 = make_tile_key(&tile_id);
        let ghost before = groups@;
        let mut group: TileGroup = match groups.remove(&key) {
            Some(v) => v,
            None => Vec::new(),
        };
        assert(group@ == group_upto(points, tile_id, k as int)) by {
            assert(tile_key(tile_id) == key);
        }
        group.push((k, geo_point));
        groups.insert(key, group);
        assert forall|t: TileID|
            {
                &&& groups@.contains_key(#[trigger] tile_key(t)) ==> groups@[tile_key(t)]@
                    == group_upto(points, t, k + 1) && group_upto(points, t, k + 1).len() > 0
                &&& !groups@.contains_key(tile_key(t)) ==> group_upto(points, t, k + 1).len() == 0
            } by {
            if tile_key(t) == key {
                lemma_tile_key_injective(t, tile_id);
            } else {
                assert(t != tile_id);
                assert(before.contains_key(tile_key(t)) == groups@.contains_key(tile_key(t)));
            }
        }
        k += 1;
    }
    let geopoints_tiles = GeoPointsToTilesMapping { groups };
    assert forall|t: TileID|
        {
            &&& #[trigger] geopoints_tiles.group_of(t) == tile_group(points, t)
            &&& geopoints_tiles.groups@.contains_key(tile_key(t)) ==> tile_group(points, t).len()
                > 0
        } by {
        assert(groups@.contains_key(tile_key(t)) || !groups@.contains_key(tile_key(t)));
    }
    geopoints_tiles
}

/// The elevations that a tile gives to the first `n` points of a group,
/// each with the lattice index of its point; a point for which the tile has
/// no elevation is left out.
pub open spec fn sampled_upto<T: TileData>(
    tile: T,
    group: Seq<(GeoPointIndex, GeoPoint)>,
    n: int,
) -> Seq<(GeoPointIndex, Height)>
    decreases n,
{
    if n <= 0 {
        Seq::empty()
    } else {
        let rest = sampled_upto(tile, group, n - 1);
        match tile.height_at(group[n - 1].1) {
            Some(h) => rest.push((group[n - 1].0, h)),
            None => rest,
        }
    }
}

/// The elevations that a tile gives to the points of a group.
pub open spec fn sampled<T: TileData>(tile: T, group: Seq<(GeoPointIndex, GeoPoint)>) -> Seq<
    (GeoPointIndex, Height),
> {
    sampled_upto(tile, group, group.len() as int)
}

/// The elevations that the answer of a tile's load gives to the points of a
/// group: none where the tile is absent or could not be read.
pub open spec fn sampled_loaded<T: TileData>(
    load_result: Result<Option<T>, String>,
    group: Seq<(GeoPointIndex, GeoPoint)>,
) -> Seq<(GeoPointIndex, Height)> {
    match load_result {
        Ok(Some(tile)) => sampled(tile, group),
        _ => Seq::empty(),
    }
}

/// The values after a buffer of new values was written into them, entry by
/// entry: each entry replaces the value at its index.
pub open spec fn merged<V>(values: Seq<V>, buffer: Seq<(GeoPointIndex, V)>) -> Seq<V>
    decreases buffer.len(),
{
    if buffer.len() == 0 {
        values
    } else {
        let done = merged(values, buffer.drop_last());
        let entry = buffer.last();
        if entry.0 < done.len() {
            done.update(entry.0 as int, entry.1)
        } else {
            done
        }
    }
}

/// The values after the buffers were written into them, one after the
/// other.
pub open spec fn merged_all<V>(values: Seq<V>, buffers: Seq<Seq<(GeoPointIndex, V)>>) -> Seq<V>
    decreases buffers.len(),
{
    if buffers.len() == 0 {
        values
    } else {
        merged(merged_all(values, buffers.drop_last()), buffers.last())
    }
}

/// The buffer holds an entry for the index.
pub open spec fn has_key<V>(buffer: Seq<(GeoPointIndex, V)>, k: int) -> bool {
    exists|i: int| 0 <= i < buffer.len() && (#[trigger] buffer[i]).0 == k
}

/// One of the buffers holds an entry for the index.
pub open spec fn any_has_key<V>(buffers: Seq<Seq<(GeoPointIndex, V)>>, k: int) -> bool {
    exists|a: int| 0 <= a < buffers.len() && has_key(#[trigger] buffers[a], k)
}

/// No index has two entries, neither in one buffer nor in two of them.
pub open spec fn disjoint_keys<V>(buffers: Seq<Seq<(GeoPointIndex, V)>>) -> bool {
    forall|a: int, i: int, b: int, j: int|
        0 <= a < buffers.len() && 0 <= i < buffers[a].len() && 0 <= b < buffers.len() && 0 <= j
            < buffers[b].len() && (a != b || i != j) ==> (#[trigger] buffers[a][i]).0
            != (#[trigger] buffers[b][j]).0
}

/// Every entry of the first buffers is an entry of the second.
pub open spec fn entries_within<V>(
    first: Seq<Seq<(GeoPointIndex, V)>>,
    second: Seq<Seq<(GeoPointIndex, V)>>,
) -> bool {
    forall|a: int, i: int|
        0 <= a < first.len() && 0 <= i < first[a].len() ==> exists|b: int, j: int|
            0 <= b < second.len() && 0 <= j < second[b].len() && #[trigger] second[b][j]
                == #[trigger] first[a][i]
}

/// After a buffer with one entry per index at most was written, each index
/// with an entry holds the value of its entry, and every other index holds
/// what it held before.
pub proof fn lemma_merged_pointwise<V>(values: Seq<V>, buffer: Seq<(GeoPointIndex, V)>)
    requires
        forall|i: int, j: int|
            0 <= i < j < buffer.len() ==> (#[trigger] buffer[i]).0 != (#[trigger] buffer[j]).0,
    ensures
        merged(values, buffer).len() == values.len(),
        forall|i: int|
            0 <= i < buffer.len() && (#[trigger] buffer[i]).0 < values.len() ==> merged(
                values,
                buffer,
            )[buffer[i].0 as int] == buffer[i].1,
        forall|k: int|
            0 <= k < values.len() && !has_key(buffer, k) ==> #[trigger] merged(values, buffer)[k]
                == values[k],
    decreases buffer.len(),
{
    if buffer.len() > 0 {
        let init = buffer.drop_last();
        let n = buffer.len() - 1;
        assert forall|i: int, j: int| 0 <= i < j < init.len() implies (#[trigger] init[i]).0 != (
        #[trigger] init[j]).0 by {
            assert(init[i] == buffer[i] && init[j] == buffer[j]);
        }
        lemma_merged_pointwise(values, init);
        let done = merged(values, init);
        let all = merged(values, buffer);
        assert forall|i: int| 0 <= i < buffer.len() && (#[trigger] buffer[i]).0 < values.len() implies all[buffer[i].0 as int]
            == buffer[i].1 by {
            if i < n {
                assert(init[i] == buffer[i]);
                assert(buffer[i].0 != buffer[n].0);
            }
        }
        assert forall|k: int| 0 <= k < values.len() && !has_key(buffer, k) implies #[trigger] all[k]
            == values[k] by {
            assert(buffer[n].0 != k);
            if has_key(init, k) {
                let i = choose|i: int| 0 <= i < init.len() && (#[trigger] init[i]).0 == k;
                assert(buffer[i].0 == k);
            }
        }
    }
}

/// After buffers with one entry per index at most were written, each index
/// with an entry holds the value of its entry, and every other index holds
/// what it held before: no written value is lost, and nothing else changes.
pub proof fn lemma_merged_all_pointwise<V>(values: Seq<V>, buffers: Seq<Seq<(GeoPointIndex, V)>>)
    requires
        disjoint_keys(buffers),
    ensures
        merged_all(values, buffers).len() == values.len(),
        forall|a: int, i: int|
            0 <= a < buffers.len() && 0 <= i < buffers[a].len() && (#[trigger] buffers[a][i]).0
                < values.len() ==> merged_all(values, buffers)[buffers[a][i].0 as int]
                == buffers[a][i].1,
        forall|k: int|
            0 <= k < values.len() && !any_has_key(buffers, k) ==> #[trigger] merged_all(
                values,
                buffers,
            )[k] == values[k],
    decreases buffers.len(),
{
    if buffers.len() > 0 {
        let init = buffers.drop_last();
        let n = buffers.len() - 1;
        let last = buffers.last();
        assert forall|a: int, i: int, b: int, j: int|
            0 <= a < init.len() && 0 <= i < init[a].len() && 0 <= b < init.len() && 0 <= j
                < init[b].len() && (a != b || i != j) implies (#[trigger] init[a][i]).0 != (
        #[trigger] init[b][j]).0 by {
            assert(init[a] == buffers[a] && init[b] == buffers[b]);
            assert(buffers[a][i].0 != buffers[b][j].0);
        }
        lemma_merged_all_pointwise(values, init);
        let prev = merged_all(values, init);
        assert forall|i: int, j: int| 0 <= i < j < last.len() implies (#[trigger] last[i]).0 != (
        #[trigger] last[j]).0 by {
            assert(buffers[n][i].0 != buffers[n][j].0);
        }
        lemma_merged_pointwise(prev, last);
        let all = merged_all(values, buffers);
        assert forall|a: int, i: int|
            0 <= a < buffers.len() && 0 <= i < buffers[a].len() && (#[trigger] buffers[a][i]).0
                < values.len() implies all[buffers[a][i].0 as int] == buffers[a][i].1 by {
            let k = buffers[a][i].0 as int;
            if a < n {
                assert(init[a] == buffers[a]);
                if has_key(last, k) {
                    let j = choose|j: int| 0 <= j < last.len() && (#[trigger] last[j]).0 == k;
                    assert(buffers[n][j].0 != buffers[a][i].0);
                }
                assert(all[k] == prev[k]);
            } else {
                assert(last[i] == buffers[a][i]);
            }
        }
        assert forall|k: int| 0 <= k < values.len() && !any_has_key(buffers, k) implies #[trigger] all[k]
            == values[k] by {
            assert(!has_key(buffers[n], k));
            if any_has_key(init, k) {
                let a = choose|a: int| 0 <= a < init.len() && has_key(#[trigger] init[a], k);
                assert(init[a] == buffers[a]);
                assert(has_key(buffers[a], k));
            }
            assert(all[k] == prev[k]);
        }
    }
}

/// The outcome of a sampling pass does not depend on the order in which the
/// tiles were taken, nor on how they were shared out: two runs that wrote
/// the same entries, one entry per index at most, leave the same values.
pub proof fn lemma_merge_order_independent<V>(
    values: Seq<V>,
    first: Seq<Seq<(GeoPointIndex, V)>>,
    second: Seq<Seq<(GeoPointIndex, V)>>,
)
    requires
        disjoint_keys(first),
        disjoint_keys(second),
        entries_within(first, second),
        entries_within(second, first),
    ensures
        merged_all(values, first) == merged_all(values, second),
{
    lemma_merged_all_pointwise(values, first);
    lemma_merged_all_pointwise(values, second);
    let x = merged_all(values, first);
    let y = merged_all(values, second);
    assert forall|k: int| 0 <= k < values.len() implies x[k] == y[k] by {
        if any_has_key(first, k) {
            let a = choose|a: int| 0 <= a < first.len() && has_key(#[trigger] first[a], k);
            let i = choose|i: int| 0 <= i < first[a].len() && (#[trigger] first[a][i]).0 == k;
            let (b, j) = choose|b: int, j: int|
                0 <= b < second.len() && 0 <= j < second[b].len() && #[trigger] second[b][j]
                    == #[trigger] first[a][i];
            assert(x[k] == first[a][i].1);
            assert(y[second[b][j].0 as int] == second[b][j].1);
        } else if any_has_key(second, k) {
            let b = choose|b: int| 0 <= b < second.len() && has_key(#[trigger] second[b], k);
            let j = choose|j: int| 0 <= j < second[b].len() && (#[trigger] second[b][j]).0 == k;
            let (a, i) = choose|a: int, i: int|
                0 <= a < first.len() && 0 <= i < first[a].len() && #[trigger] first[a][i]
                    == #[trigger] second[b][j];
            assert(has_key(first[a], k));
            assert(any_has_key(first, k));
        }
    }
    assert(x =~= y);
}

/// What a tile gives to a group are elevations of points of the group, in
/// the order of the group.
pub proof fn lemma_sampled_members<T: TileData>(
    tile: T,
    group: Seq<(GeoPointIndex, GeoPoint)>,
    n: int,
)
    requires
        0 <= n <= group.len(),
    ensures
        sampled_upto(tile, group, n).len() <= n,
        forall|e: int|
            0 <= e < sampled_upto(tile, group, n).len() ==> exists|f: int|
                e <= f < n && group[f].0 == (#[trigger] sampled_upto(tile, group, n)[e]).0
                    && tile.height_at(group[f].1) == Some(sampled_upto(tile, group, n)[e].1),
        forall|e1: int, e2: int|
            #![trigger sampled_upto(tile, group, n)[e1], sampled_upto(tile, group, n)[e2]]
            0 <= e1 < e2 < sampled_upto(tile, group, n).len() ==> exists|f1: int, f2: int|
                0 <= f1 < f2 < n && group[f1].0 == sampled_upto(tile, group, n)[e1].0 && group[f2].0
                    == sampled_upto(tile, group, n)[e2].0,
    decreases n,
{
    if n > 0 {
        lemma_sampled_members(tile, group, n - 1);
        let rest = sampled_upto(tile, group, n - 1);
        let all = sampled_upto(tile, group, n);
        assert forall|e: int| 0 <= e < all.len() implies exists|f: int|
            e <= f < n && group[f].0 == (#[trigger] all[e]).0 && tile.height_at(group[f].1) == Some(
                all[e].1,
            ) by {
            if e < rest.len() {
                assert(all[e] == rest[e]);
            } else {
                assert(group[n - 1].0 == all[e].0);
            }
        }
        assert forall|e1: int, e2: int|
            #![trigger all[e1], all[e2]]
            0 <= e1 < e2 < all.len() implies exists|f1: int, f2: int|
            0 <= f1 < f2 < n && group[f1].0 == all[e1].0 && group[f2].0 == all[e2].0 by {
            assert(all[e1] == rest[e1]);
            if e2 < rest.len() {
                assert(all[e2] == rest[e2]);
                let (f1, f2) = choose|f1: int, f2: int|
                    0 <= f1 < f2 < n - 1 && group[f1].0 == rest[e1].0 && group[f2].0 == rest[e2].0;
                assert(0 <= f1 < f2 < n && group[f1].0 == all[e1].0 && group[f2].0 == all[e2].0);
            } else {
                let f1 = choose|f: int|
                    e1 <= f < n - 1 && group[f].0 == (#[trigger] rest[e1]).0 && tile.height_at(
                        group[f].1,
                    ) == Some(rest[e1].1);
                assert(0 <= f1 < n - 1 < n && group[f1].0 == all[e1].0 && group[n - 1].0
                    == all[e2].0);
            }
        }
    }
}

/// The elevations of the points of a tile.
pub fn sample_heights<T: TileData>(dem_tile: &T, tile_geopoints: &TileGroup) -> (tile_heights: Vec<
    (GeoPointIndex, Height),
>)
    requires
        dem_tile.wf(),
        forall|k: int| 0 <= k < tile_geopoints.len() ==> (#[trigger] tile_geopoints[k]).1.wf(),
    ensures
        tile_heights@ == sampled(*dem_tile, tile_geopoints@),
{
    let mut tile_heights: Vec<(GeoPointIndex, Height)> = Vec::new();
    let mut n: usize = 0;
    while n < tile_geopoints.len()
        invariant
            dem_tile.wf(),
            n <= tile_geopoints.len(),
            forall|k: int| 0 <= k < tile_geopoints.len() ==> (#[trigger] tile_geopoints[k]).1.wf(),
            tile_heights@ == sampled_upto(*dem_tile, tile_geopoints@, n as int),
        decreases tile_geopoints.len() - n,
    {
        let (k, geo_point) = tile_geopoints[n];
        assert(tile_geopoints[n as int].1.wf());
        match dem_tile.calc_height(&geo_point) {
            None => (),  // Geo point not in the tile
            Some(h) => {
                tile_heights.push((k, h));
            },
        }
        n += 1;
    }
    tile_heights
}

/// The elevations that the answer of a tile's load gives to the points of
/// the tile. A tile that is absent or could not be read gives none: its
/// points keep what they have.
pub fn sample_loaded<T: TileData>(
    load_result: &Result<Option<T>, String>,
    tile_geopoints: &TileGroup,
) -> (tile_heights: Vec<(GeoPointIndex, Height)>)
    requires
        load_result matches Ok(Some(tile)) ==> tile.wf(),
        forall|k: int| 0 <= k < tile_geopoints.len() ==> (#[trigger] tile_geopoints[k]).1.wf(),
    ensures
        tile_heights@ == sampled_loaded(*load_result, tile_geopoints@),
{
    match load_result {
        Ok(Some(dem_tile)) => sample_heights(dem_tile, tile_geopoints),
        _ => Vec::new(),
    }
}

/// The colours of the elevations of a tile.
pub fn sample_colors(tile_heights: &Vec<(GeoPointIndex, Height)>, color_mapping: &ColorMapping) -> (tile_colors:
    Vec<(GeoPointIndex, RGB)>)
    requires
        color_mapping.wf(),
    ensures
        tile_colors@.len() == tile_heights@.len(),
        forall|n: int|
            0 <= n < tile_heights@.len() ==> #[trigger] tile_colors@[n] == (
                tile_heights@[n].0,
                color_mapping.spec_color(tile_heights@[n].1),
            ),
{
    let mut tile_colors: Vec<(GeoPointIndex, RGB)> = Vec::new();
    let mut n: usize = 0;
    while n < tile_heights.len()
        invariant
            color_mapping.wf(),
            n <= tile_heights.len(),
            tile_colors@.len() == n,
            forall|m: int|
                0 <= m < n ==> #[trigger] tile_colors@[m] == (
                    tile_heights@[m].0,
                    color_mapping.spec_color(tile_heights@[m].1),
                ),
        decreases tile_heights.len() - n,
    {
        let (k, h) = tile_heights[n];
        let c: RGB = color_mapping.color(h);
        tile_colors.push((k, c));
        n += 1;
    }
    tile_colors
}

/// Writes a buffer of new values into the values, entry by entry.
pub fn append_values<V: Copy>(values: &mut Vec<V>, buffer: &Vec<(GeoPointIndex, V)>)
    ensures
        final(values)@ == merged(old(values)@, buffer@),
{
    let mut n: usize = 0;
    while n < buffer.len()
        invariant
            n <= buffer.len(),
            values@ == merged(old(values)@, buffer@.take(n as int)),
        decreases buffer.len() - n,
    {
        let (k, v) = buffer[n];
        assert(buffer@.take(n + 1).drop_last() =~= buffer@.take(n as int));
        if k < values.len() {
            values.set(k, v);
        }
        n += 1;
    }
    assert(buffer@.take(n as int) =~= buffer@);
}

/// The values before any tile was sampled: one for each lattice point, each
/// the same.
pub open spec fn seeded<V>(count: nat, value: V) -> Seq<V> {
    Seq::new(count, |k: int| value)
}

/// As many copies of the value as asked for.
pub fn seed_values<V: Copy>(count: usize, value: V) -> (values: Vec<V>)
    ensures
        values@ == seeded(count as nat, value),
{
    let mut values: Vec<V> = Vec::new();
    let mut k: usize = 0;
    while k < count
        invariant
            k <= count,
            values@.len() == k,
            forall|i: int| 0 <= i < k ==> #[trigger] values@[i] == value,
        decreases count - k,
    {
        values.push(value);
        k += 1;
    }
    assert(values@ =~= seeded(count as nat, value));
    values
}

/// The heights before any tile was sampled: for each lattice point the sea
/// level of the elevation source.
pub fn seed_heights<O: DataSourceOpts>(geopoints: &GeoPoints, opts: &O) -> (heights: Heights)
    ensures
        heights@ == seeded(geopoints@.len(), opts.sea_level()),
{
    seed_values(geopoints.len(), opts.get_sea_level())
}

/// The colours before any tile was sampled: for each lattice point the
/// colour of the sea level of the elevation source.
pub fn seed_colors<O: DataSourceOpts>(
    geopoints: &GeoPoints,
    opts: &O,
    color_mapping: &ColorMapping,
) -> (colors: Colors)
    requires
        color_mapping.wf(),
    ensures
        colors@ == seeded(geopoints@.len(), color_mapping.spec_color(opts.sea_level())),
{
    let sea: RGB = color_mapping.color(opts.get_sea_level());
    seed_values(geopoints.len(), sea)
}

/// A lattice point to which no tile gave a value keeps the value it was
/// seeded with, whatever was written for the other points.
pub proof fn lemma_unsampled_point_keeps_seed<V>(
    count: nat,
    value: V,
    buffers: Seq<Seq<(GeoPointIndex, V)>>,
    k: int,
)
    requires
        disjoint_keys(buffers),
        0 <= k < count,
        !any_has_key(buffers, k),
    ensures
        merged_all(seeded(count, value), buffers).len() == count,
        merged_all(seeded(count, value), buffers)[k] == value,
{
    lemma_merged_all_pointwise(seeded(count, value), buffers);
}

/// A tile that is absent or could not be read changes nothing: every
/// lattice point keeps the value it was seeded with.
pub proof fn lemma_absent_tile_keeps_values<T: TileData>(
    values: Seq<Height>,
    load_result: Result<Option<T>, String>,
    group: Seq<(GeoPointIndex, GeoPoint)>,
)
    requires
        !(load_result matches Ok(Some(_))),
    ensures
        merged(values, sampled_loaded(load_result, group)) == values,
{
}

/// What distinct tiles give to their groups of one lattice never meets: no
/// lattice index has two entries, so that the buffers of the tiles can be
/// written in any order; and every entry is for a point of the lattice.
pub proof fn lemma_tile_buffers_disjoint<T: TileData>(
    points: Seq<GeoPoint>,
    tiles: Seq<TileID>,
    data: Seq<T>,
    buffers: Seq<Seq<(GeoPointIndex, Height)>>,
)
    requires
        points.len() <= usize::MAX,
        tiles.len() == data.len(),
        tiles.len() == buffers.len(),
        forall|a: int, b: int| 0 <= a < b < tiles.len() ==> tiles[a] != tiles[b],
        forall|a: int|
            0 <= a < tiles.len() ==> #[trigger] buffers[a] == sampled(
                data[a],
                tile_group(points, tiles[a]),
            ),
    ensures
        disjoint_keys(buffers),
        forall|a: int, i: int|
            0 <= a < buffers.len() && 0 <= i < buffers[a].len() ==> (#[trigger] buffers[a][i]).0
                < points.len(),
{
    assert forall|a: int, i: int|
        0 <= a < buffers.len() && 0 <= i < buffers[a].len() implies (#[trigger] buffers[a][i]).0
            < points.len() by {
        let ga = tile_group(points, tiles[a]);
        lemma_group_members(points, tiles[a], points.len() as int);
        lemma_sampled_members(data[a], ga, ga.len() as int);
        let sa = sampled_upto(data[a], ga, ga.len() as int);
        assert(buffers[a] == sa);
        let fa = choose|f: int|
            i <= f < ga.len() && ga[f].0 == (#[trigger] sa[i]).0 && data[a].height_at(ga[f].1)
                == Some(sa[i].1);
        assert(ga[fa].0 < points.len());
    }
    assert forall|a: int, i: int, b: int, j: int|
        0 <= a < buffers.len() && 0 <= i < buffers[a].len() && 0 <= b < buffers.len() && 0 <= j
            < buffers[b].len() && (a != b || i != j) implies (#[trigger] buffers[a][i]).0 != (
    #[trigger] buffers[b][j]).0 by {
        let ga = tile_group(points, tiles[a]);
        let gb = tile_group(points, tiles[b]);
        lemma_group_members(points, tiles[a], points.len() as int);
        lemma_group_members(points, tiles[b], points.len() as int);
        lemma_sampled_members(data[a], ga, ga.len() as int);
        lemma_sampled_members(data[b], gb, gb.len() as int);
        let sa = sampled_upto(data[a], ga, ga.len() as int);
        let sb = sampled_upto(data[b], gb, gb.len() as int);
        assert(buffers[a] == sa && buffers[b] == sb);
        if a == b {
            if i < j {
                let (f1, f2) = choose|f1: int, f2: int|
                    0 <= f1 < f2 < ga.len() && ga[f1].0 == sa[i].0 && ga[f2].0 == sa[j].0;
                assert(ga[f1].0 < ga[f2].0);
            } else {
                let (f1, f2) = choose|f1: int, f2: int|
                    0 <= f1 < f2 < ga.len() && ga[f1].0 == sa[j].0 && ga[f2].0 == sa[i].0;
                assert(ga[f1].0 < ga[f2].0);
            }
        } else {
            let fa = choose|f: int|
                i <= f < ga.len() && ga[f].0 == (#[trigger] sa[i]).0 && data[a].height_at(ga[f].1)
                    == Some(sa[i].1);
            let fb = choose|f: int|
                j <= f < gb.len() && gb[f].0 == (#[trigger] sb[j]).0 && data[b].height_at(gb[f].1)
                    == Some(sb[j].1);
            let ea = ga[fa];
            let eb = gb[fb];
            assert(tile_of(ea.1) == tiles[a] && ea.1 == points[ea.0 as int]);
            assert(tile_of(eb.1) == tiles[b] && eb.1 == points[eb.0 as int]);
            assert(tiles[a] != tiles[b]);
        }
    }
}

/// Makes specific data source Opts struct
pub fn make_data_source_opts(
    nodata: Option<HeightInt>,
    sea_level: Option<HeightInt>,
    data_source_name: &DataSourceName,
) -> (opts: DemArc3SecOpts)
    ensures
        opts.nodata == (match nodata {
            Some(n) => n,
            None => DEFAULT_NODATA,
        }),
        opts.sea_level == (match sea_level {
            Some(s) => s,
            None => DEFAULT_SEA_LEVEL,
        }),
{
    match data_source_name {
        DataSourceName::DemArcSec3 => DemArc3SecOpts::new_opts(nodata, sea_level),
    }
}

/// Makes the tile of the named data source from the bytes of its file,
/// where the file was found.
pub fn load_tile_data<O: DataSourceOpts>(
    data_source_name: &DataSourceName,
    opts: &O,
    tile_id: &TileID,
    file: Option<Vec<u8>>,
) -> (r: Result<Option<DemArc3SecData>, String>)
    ensures
        match DemArc3SecData::spec_load(
            opts.nodata(),
            opts.sea_level(),
            *tile_id,
            match file {
                Some(bytes) => Some(bytes@),
                None => None,
            },
        ) {
            Err(msg) => r matches Err(e) && e@ == msg,
            Ok(None) => r matches Ok(None),
            Ok(Some(content)) => r matches Ok(Some(tile)) && tile.dem_data is Some
                && tile.content() == content && TileData::wf(&tile),
        },
{
    match data_source_name {
        DataSourceName::DemArcSec3 => DemArc3SecData::load(opts, tile_id, file),
    }
}

} // verus!
