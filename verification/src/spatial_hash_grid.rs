use vstd::prelude::*;
use vstd::arithmetic::div_mod::{lemma_fundamental_div_mod, lemma_fundamental_div_mod_converse};

verus! {

/// An integer point or cell key.
#[derive(Debug, Clone, Copy, PartialEq, Eq, Structural, Hash)]
pub struct IVec3 {
    pub x: i32,
    pub y: i32,
    pub z: i32,
}

impl IVec3 {
    pub fn new(x: i32, y: i32, z: i32) -> (r: Self)
        ensures
            r == (IVec3 { x, y, z }),
    {
        Self { x, y, z }
    }
}

/// The cell that holds `position`: each axis divided by the cell size and
/// rounded down.
pub open spec fn cell_key(position: IVec3, cell_size: i32) -> IVec3 {
    IVec3 {
        x: (position.x as int / cell_size as int) as i32,
        y: (position.y as int / cell_size as int) as i32,
        z: (position.z as int / cell_size as int) as i32,
    }
}

/// The square of the distance between two points.
pub open spec fn distance_squared(a: IVec3, b: IVec3) -> int {
    (a.x - b.x) * (a.x - b.x) + (a.y - b.y) * (a.y - b.y) + (a.z - b.z) * (a.z - b.z)
}

/// Whether two points are no further apart than `distance`.
pub open spec fn within(a: IVec3, b: IVec3, distance: u32) -> bool {
    distance_squared(a, b) <= distance * distance
}

/// How many cells a distance reaches over: the distance divided by the cell
/// size and rounded up.
pub open spec fn cell_reach(distance: u32, cell_size: i32) -> int {
    (distance + cell_size - 1) / (cell_size as int)
}

/// Whether a cell lies within `reach` cells of `center` on every axis.
pub open spec fn key_in_reach(key: IVec3, center: IVec3, reach: int) -> bool {
    &&& -reach <= key.x - center.x <= reach
    &&& -reach <= key.y - center.y <= reach
    &&& -reach <= key.z - center.z <= reach
}

/// The entities of a map of positions that are no further than `distance`
/// from `position`.
pub open spec fn nearby(positions: Map<u64, IVec3>, position: IVec3, distance: u32) -> Set<u64> {
    Set::new(|e: u64| positions.contains_key(e) && within(positions[e], position, distance))
}

proof fn lemma_floor_div_bounds(a: int, c: int)
    requires
        c > 0,
    ensures
        a >= 0 ==> 0 <= a / c <= a,
        a < 0 ==> a <= a / c < 0,
{
    lemma_fundamental_div_mod(a, c);
    let q = a / c;
    let r = a % c;
    assert(a == c * q + r);
    assert(0 <= r < c);
    if a >= 0 {
        assert(q >= 0) by (nonlinear_arith)
            requires
                c * q + r >= 0,
                r < c,
                c > 0,
        ;
        assert(q <= c * q) by (nonlinear_arith)
            requires
                q >= 0,
                c > 0,
        ;
    } else {
        assert(q < 0) by (nonlinear_arith)
            requires
                c * q + r < 0,
                r >= 0,
                c > 0,
        ;
        assert(c * q <= q) by (nonlinear_arith)
            requires
                q < 0,
                c > 0,
        ;
        assert(c * q + c > a);
        assert(q >= a) by (nonlinear_arith)
            requires
                c * q + c > a,
                q < 0,
                c > 0,
                a < 0,
        ;
    }
}

/// Two coordinates that are at most `d` apart lie in cells that are at most
/// `cell_reach` apart.
proof fn lemma_axis_reach(a: int, b: int, d: int, c: int)
    requires
        c > 0,
        d >= 0,
        b <= a + d,
    ensures
        b / c <= a / c + (d + c - 1) / c,
{
    lemma_fundamental_div_mod(a, c);
    lemma_fundamental_div_mod(b, c);
    lemma_fundamental_div_mod(d + c - 1, c);
    let qa = a / c;
    let qb = b / c;
    let r = (d + c - 1) / c;
    assert(c * r >= d);
    assert(qb <= qa + r) by (nonlinear_arith)
        requires
            c > 0,
            a == c * qa + a % c,
            b == c * qb + b % c,
            0 <= a % c < c,
            0 <= b % c < c,
            c * r >= d,
            b <= a + d,
    {
        if qb >= qa + r + 1 {
            assert(c * qb >= c * (qa + r + 1));
            assert(c * (qa + r + 1) == c * qa + c * r + c);
        }
    }
}

proof fn lemma_gap_bounded(a: int, b: int, d: int, rest: int)
    requires
        d >= 0,
        rest >= 0,
        (a - b) * (a - b) + rest <= d * d,
    ensures
        -d <= a - b <= d,
{
    let g = a - b;
    assert(-d <= g <= d) by (nonlinear_arith)
        requires
            d >= 0,
            g * g <= d * d,
    {
        if g > d {
            assert(g * g >= (d + 1) * (d + 1));
        }
        if g < -d {
            assert(g * g >= (d + 1) * (d + 1));
        }
    }
}

/// A point within `distance` of `position` lies in a cell within
/// `cell_reach` cells of the cell of `position`.
pub proof fn lemma_within_implies_in_reach(point: IVec3, position: IVec3, distance: u32, cell_size: i32)
    requires
        cell_size > 0,
        within(point, position, distance),
    ensures
        key_in_reach(
            cell_key(point, cell_size),
            cell_key(position, cell_size),
            cell_reach(distance, cell_size),
        ),
{
    let d = distance as int;
    let c = cell_size as int;
    let sx = (point.x - position.x) * (point.x - position.x);
    let sy = (point.y - position.y) * (point.y - position.y);
    let sz = (point.z - position.z) * (point.z - position.z);
    assert(sx >= 0 && sy >= 0 && sz >= 0) by (nonlinear_arith)
        requires
            sx == (point.x - position.x) * (point.x - position.x),
            sy == (point.y - position.y) * (point.y - position.y),
            sz == (point.z - position.z) * (point.z - position.z),
    ;
    lemma_gap_bounded(point.x as int, position.x as int, d, sy + sz);
    lemma_gap_bounded(point.y as int, position.y as int, d, sx + sz);
    lemma_gap_bounded(point.z as int, position.z as int, d, sx + sy);
    lemma_axis_reach(position.x as int, point.x as int, d, c);
    lemma_axis_reach(point.x as int, position.x as int, d, c);
    lemma_axis_reach(position.y as int, point.y as int, d, c);
    lemma_axis_reach(point.y as int, position.y as int, d, c);
    lemma_axis_reach(position.z as int, point.z as int, d, c);
    lemma_axis_reach(point.z as int, position.z as int, d, c);
    lemma_floor_div_bounds(point.x as int, c);
    lemma_floor_div_bounds(point.y as int, c);
    lemma_floor_div_bounds(point.z as int, c);
    lemma_floor_div_bounds(position.x as int, c);
    lemma_floor_div_bounds(position.y as int, c);
    lemma_floor_div_bounds(position.z as int, c);
}

/// Division that rounds down.
fn floor_div(a: i32, c: i32) -> (r: i32)
    requires
        c > 0,
    ensures
        r as int == a as int / c as int,
{
    proof {
        lemma_floor_div_bounds(a as int, c as int);
    }
    if a >= 0 {
        a / c
    } else {
        let n: i64 = -(a as i64) - 1;
        let q: i64 = n / (c as i64);
        proof {
            let ni = n as int;
            let ci = c as int;
            lemma_fundamental_div_mod(ni, ci);
            lemma_floor_div_bounds(ni, ci);
            let rem = ci - 1 - ni % ci;
            assert(a as int == (-(ni / ci) - 1) * ci + rem) by (nonlinear_arith)
                requires
                    ni == ci * (ni / ci) + ni % ci,
                    a as int == -ni - 1,
                    rem == ci - 1 - ni % ci,
            ;
            lemma_fundamental_div_mod_converse(a as int, ci, -(ni / ci) - 1, rem);
        }
        (-q - 1) as i32
    }
}

/// The distance between two coordinates.
fn axis_gap(a: i32, b: i32) -> (r: u64)
    ensures
        r as int == if a >= b { a - b } else { b - a },
        r <= 0xffff_ffff,
{
    if a >= b {
        (a as i64 - b as i64) as u64
    } else {
        (b as i64 - a as i64) as u64
    }
}

fn square(gap: u64) -> (r: u128)
    requires
        gap <= 0xffff_ffff,
    ensures
        r as int == gap * gap,
        r <= 0xffff_fffe_0000_0001,
{
    assert(gap * gap <= 0xffff_ffff * 0xffff_ffff) by (nonlinear_arith)
        requires
            gap <= 0xffff_ffff,
    ;
    (gap * gap) as u128
}

/// Whether two points are no further apart than `distance`.
pub fn is_within(a: IVec3, b: IVec3, distance: u32) -> (r: bool)
    ensures
        r == within(a, b, distance),
{
    let gx: u64 = axis_gap(a.x, b.x);
    let gy: u64 = axis_gap(a.y, b.y);
    let gz: u64 = axis_gap(a.z, b.z);
    let total: u128 = square(gx) + square(gy) + square(gz);
    let limit: u128 = square(distance as u64);
    proof {
        assert((a.x - b.x) * (a.x - b.x) == gx * gx) by (nonlinear_arith)
            requires
                gx as int == a.x - b.x || gx as int == b.x - a.x,
        ;
        assert((a.y - b.y) * (a.y - b.y) == gy * gy) by (nonlinear_arith)
            requires
                gy as int == a.y - b.y || gy as int == b.y - a.y,
        ;
        assert((a.z - b.z) * (a.z - b.z) == gz * gz) by (nonlinear_arith)
            requires
                gz as int == a.z - b.z || gz as int == b.z - a.z,
        ;
    }
    total <= limit
}

/// An entity and the position it was last seen at.
#[derive(Debug, Clone, Copy, PartialEq, Eq, Structural)]
pub struct Entry {
    pub entity: u64,
    pub position: IVec3,
}

/// The entities of one cell.
#[derive(Debug)]
pub struct Cell {
    key: IVec3,
    entries: Vec<Entry>,
}

/// An index of moving entities by the cell they are in, for finding those
/// near a point without testing every entity.
pub struct SpatialHashGrid {
    cell_size: i32,
    cells: Vec<Cell>,
    positions: Ghost<Map<u64, IVec3>>,
}

spec fn valid_slot(cells: Seq<Cell>, i: int, j: int) -> bool {
    0 <= i < cells.len() && 0 <= j < cells[i].entries@.len()
}

/// Every entry agrees with the map of positions and sits in the cell of its
/// position; every entity of the map has an entry, and only one; no two
/// cells share a key.
spec fn cells_wf(cells: Seq<Cell>, positions: Map<u64, IVec3>, cell_size: i32) -> bool {
    &&& cell_size > 0
    &&& forall|i: int, j: int| #[trigger]
        valid_slot(cells, i, j) ==> {
            let t = cells[i].entries@[j];
            &&& positions.contains_key(t.entity)
            &&& positions[t.entity] == t.position
            &&& cells[i].key == cell_key(t.position, cell_size)
        }
    &&& forall|e: u64| #[trigger]
        positions.contains_key(e) ==> exists|i: int, j: int| #[trigger]
            valid_slot(cells, i, j) && cells[i].entries@[j].entity == e
    &&& forall|i: int, j: int, i2: int, j2: int|
        #[trigger] valid_slot(cells, i, j) && #[trigger] valid_slot(cells, i2, j2)
            && cells[i].entries@[j].entity == cells[i2].entries@[j2].entity ==> i == i2 && j == j2
    &&& forall|i: int, i2: int|
        0 <= i < i2 < cells.len() ==> (#[trigger] cells[i]).key != (#[trigger] cells[i2]).key
}

proof fn lemma_refresh(
    before: Seq<Cell>,
    after: Seq<Cell>,
    positions: Map<u64, IVec3>,
    cell_size: i32,
    i0: int,
    j0: int,
    entry: Entry,
)
    requires
        cells_wf(before, positions, cell_size),
        valid_slot(before, i0, j0),
        before[i0].entries@[j0].entity == entry.entity,
        before[i0].key == cell_key(entry.position, cell_size),
        after.len() == before.len(),
        forall|i: int| 0 <= i < before.len() ==> (#[trigger] after[i]).key == before[i].key,
        forall|i: int| 0 <= i < before.len() && i != i0 ==> (#[trigger] after[i]) == before[i],
        after[i0].entries@ == before[i0].entries@.update(j0, entry),
    ensures
        cells_wf(after, positions.insert(entry.entity, entry.position), cell_size),
{
    let np = positions.insert(entry.entity, entry.position);
    assert forall|i: int, j: int| #[trigger] valid_slot(after, i, j) implies {
        let t = after[i].entries@[j];
        &&& np.contains_key(t.entity)
        &&& np[t.entity] == t.position
        &&& after[i].key == cell_key(t.position, cell_size)
    } by {
        assert(valid_slot(before, i, j));
        assert(valid_slot(before, i0, j0));
    }
    assert forall|e: u64| #[trigger] np.contains_key(e) implies exists|i: int, j: int| #[trigger]
        valid_slot(after, i, j) && after[i].entries@[j].entity == e by {
        if e == entry.entity {
            assert(valid_slot(after, i0, j0) && after[i0].entries@[j0].entity == e);
        } else {
            let (i, j) = choose|i: int, j: int| #[trigger]
                valid_slot(before, i, j) && before[i].entries@[j].entity == e;
            assert(valid_slot(after, i, j) && after[i].entries@[j].entity == e);
        }
    }
    assert forall|i: int, j: int, i2: int, j2: int|
        #[trigger] valid_slot(after, i, j) && #[trigger] valid_slot(after, i2, j2)
            && after[i].entries@[j].entity == after[i2].entries@[j2].entity implies i == i2 && j
        == j2 by {
        assert(valid_slot(before, i, j));
        assert(valid_slot(before, i2, j2));
    }
}

proof fn lemma_detach(
    before: Seq<Cell>,
    after: Seq<Cell>,
    positions: Map<u64, IVec3>,
    cell_size: i32,
    i0: int,
    j0: int,
)
    requires
        cells_wf(before, positions, cell_size),
        valid_slot(before, i0, j0),
        after.len() == before.len(),
        forall|i: int| 0 <= i < before.len() ==> (#[trigger] after[i]).key == before[i].key,
        forall|i: int| 0 <= i < before.len() && i != i0 ==> (#[trigger] after[i]) == before[i],
        after[i0].entries@ == before[i0].entries@.remove(j0),
    ensures
        cells_wf(after, positions.remove(before[i0].entries@[j0].entity), cell_size),
{
    let gone = before[i0].entries@[j0].entity;
    let np = positions.remove(gone);
    assert forall|i: int, j: int| #[trigger] valid_slot(after, i, j) implies {
        let t = after[i].entries@[j];
        &&& np.contains_key(t.entity)
        &&& np[t.entity] == t.position
        &&& after[i].key == cell_key(t.position, cell_size)
    } by {
        let oj = if i == i0 && j >= j0 { j + 1 } else { j };
        assert(valid_slot(before, i, oj));
        assert(valid_slot(before, i0, j0));
        assert(after[i].entries@[j] == before[i].entries@[oj]);
    }
    assert forall|e: u64| #[trigger] np.contains_key(e) implies exists|i: int, j: int| #[trigger]
        valid_slot(after, i, j) && after[i].entries@[j].entity == e by {
        let (i, j) = choose|i: int, j: int| #[trigger]
            valid_slot(before, i, j) && before[i].entries@[j].entity == e;
        let nj = if i == i0 && j > j0 { j - 1 } else { j };
        assert(valid_slot(after, i, nj) && after[i].entries@[nj].entity == e);
    }
    assert forall|i: int, j: int, i2: int, j2: int|
        #[trigger] valid_slot(after, i, j) && #[trigger] valid_slot(after, i2, j2)
            && after[i].entries@[j].entity == after[i2].entries@[j2].entity implies i == i2 && j
        == j2 by {
        let oj = if i == i0 && j >= j0 { j + 1 } else { j };
        let oj2 = if i2 == i0 && j2 >= j0 { j2 + 1 } else { j2 };
        assert(valid_slot(before, i, oj));
        assert(valid_slot(before, i2, oj2));
        assert(after[i].entries@[j] == before[i].entries@[oj]);
        assert(after[i2].entries@[j2] == before[i2].entries@[oj2]);
    }
}

proof fn lemma_attach_existing(
    before: Seq<Cell>,
    after: Seq<Cell>,
    positions: Map<u64, IVec3>,
    cell_size: i32,
    i0: int,
    entry: Entry,
)
    requires
        cells_wf(before, positions, cell_size),
        !positions.contains_key(entry.entity),
        0 <= i0 < before.len(),
        before[i0].key == cell_key(entry.position, cell_size),
        after.len() == before.len(),
        forall|i: int| 0 <= i < before.len() ==> (#[trigger] after[i]).key == before[i].key,
        forall|i: int| 0 <= i < before.len() && i != i0 ==> (#[trigger] after[i]) == before[i],
        after[i0].entries@ == before[i0].entries@.push(entry),
    ensures
        cells_wf(after, positions.insert(entry.entity, entry.position), cell_size),
{
    let np = positions.insert(entry.entity, entry.position);
    let last = before[i0].entries@.len() as int;
    assert forall|i: int, j: int| #[trigger] valid_slot(after, i, j) implies {
        let t = after[i].entries@[j];
        &&& np.contains_key(t.entity)
        &&& np[t.entity] == t.position
        &&& after[i].key == cell_key(t.position, cell_size)
    } by {
        if !(i == i0 && j == last) {
            assert(valid_slot(before, i, j));
        }
    }
    assert forall|e: u64| #[trigger] np.contains_key(e) implies exists|i: int, j: int| #[trigger]
        valid_slot(after, i, j) && after[i].entries@[j].entity == e by {
        if e == entry.entity {
            assert(valid_slot(after, i0, last) && after[i0].entries@[last].entity == e);
        } else {
            let (i, j) = choose|i: int, j: int| #[trigger]
                valid_slot(before, i, j) && before[i].entries@[j].entity == e;
            assert(valid_slot(after, i, j) && after[i].entries@[j].entity == e);
        }
    }
    assert forall|i: int, j: int, i2: int, j2: int|
        #[trigger] valid_slot(after, i, j) && #[trigger] valid_slot(after, i2, j2)
            && after[i].entries@[j].entity == after[i2].entries@[j2].entity implies i == i2 && j
        == j2 by {
        if !(i == i0 && j == last) {
            assert(valid_slot(before, i, j));
        }
        if !(i2 == i0 && j2 == last) {
            assert(valid_slot(before, i2, j2));
        }
    }
}

proof fn lemma_attach_new(
    before: Seq<Cell>,
    after: Seq<Cell>,
    positions: Map<u64, IVec3>,
    cell_size: i32,
    entry: Entry,
)
    requires
        cells_wf(before, positions, cell_size),
        !positions.contains_key(entry.entity),
        forall|i: int| 0 <= i < before.len() ==> (#[trigger] before[i]).key != cell_key(entry.position, cell_size),
        after.len() == before.len() + 1,
        forall|i: int| 0 <= i < before.len() ==> (#[trigger] after[i]) == before[i],
        after[before.len() as int].key == cell_key(entry.position, cell_size),
        after[before.len() as int].entries@ == seq![entry],
    ensures
        cells_wf(after, positions.insert(entry.entity, entry.position), cell_size),
{
    let np = positions.insert(entry.entity, entry.position);
    let last = before.len() as int;
    assert forall|i: int, j: int| #[trigger] valid_slot(after, i, j) implies {
        let t = after[i].entries@[j];
        &&& np.contains_key(t.entity)
        &&& np[t.entity] == t.position
        &&& after[i].key == cell_key(t.position, cell_size)
    } by {
        if i != last {
            assert(valid_slot(before, i, j));
        }
    }
    assert forall|e: u64| #[trigger] np.contains_key(e) implies exists|i: int, j: int| #[trigger]
        valid_slot(after, i, j) && after[i].entries@[j].entity == e by {
        if e == entry.entity {
            assert(valid_slot(after, last, 0) && after[last].entries@[0].entity == e);
        } else {
            let (i, j) = choose|i: int, j: int| #[trigger]
                valid_slot(before, i, j) && before[i].entries@[j].entity == e;
            assert(valid_slot(after, i, j) && after[i].entries@[j].entity == e);
        }
    }
    assert forall|i: int, j: int, i2: int, j2: int|
        #[trigger] valid_slot(after, i, j) && #[trigger] valid_slot(after, i2, j2)
            && after[i].entries@[j].entity == after[i2].entries@[j2].entity implies i == i2 && j
        == j2 by {
        if i != last {
            assert(valid_slot(before, i, j));
        }
        if i2 != last {
            assert(valid_slot(before, i2, j2));
        }
    }
    assert forall|i: int, i2: int| 0 <= i < i2 < after.len() implies (#[trigger] after[i]).key != (
    #[trigger] after[i2]).key by {
        if i2 == last {
            assert(before[i].key != cell_key(entry.position, cell_size));
        } else {
            assert(before[i].key != before[i2].key);
        }
    }
}

/// Where `entity` sits in a cell, if it does.
fn find_entity(cell: &Cell, entity: u64) -> (r: Option<usize>)
    ensures
        match r {
            Some(j) => j < cell.entries@.len() && cell.entries@[j as int].entity == entity,
            None => forall|j: int| 0 <= j < cell.entries@.len() ==> (#[trigger] cell.entries@[j]).entity != entity,
        },
{
    let mut j: usize = 0;
    while j < cell.entries.len()
        invariant
            j <= cell.entries@.len(),
            forall|k: int| 0 <= k < j ==> (#[trigger] cell.entries@[k]).entity != entity,
        decreases cell.entries@.len() - j,
    {
        if cell.entries[j].entity == entity {
            return Some(j);
        }
        j = j + 1;
    }
    None
}

impl View for SpatialHashGrid {
    type V = Map<u64, IVec3>;

    /// The position each registered entity was last seen at.
    closed spec fn view(&self) -> Map<u64, IVec3> {
        self.positions@
    }
}

impl SpatialHashGrid {
    /// Every entity is registered in exactly one cell, the one that holds
    /// its position.
    pub closed spec fn wf(&self) -> bool {
        cells_wf(self.cells@, self.positions@, self.cell_size)
    }

    pub closed spec fn size(&self) -> i32 {
        self.cell_size
    }

    /// An index without entities. The cell size is positive.
    pub fn new(cell_size: i32) -> (r: Self)
        requires
            cell_size > 0,
        ensures
            r.wf(),
            r.size() == cell_size,
            r@ == Map::<u64, IVec3>::empty(),
    {
        Self { cell_size, cells: Vec::new(), positions: Ghost(Map::empty()) }
    }

    pub fn cell_size(&self) -> (r: i32)
        ensures
            r == self.size(),
    {
        self.cell_size
    }

    fn key(&self, position: IVec3) -> (r: IVec3)
        requires
            self.wf(),
        ensures
            r == cell_key(position, self.size()),
    {
        IVec3 {
            x: floor_div(position.x, self.cell_size),
            y: floor_div(position.y, self.cell_size),
            z: floor_div(position.z, self.cell_size),
        }
    }

    fn find_cell(&self, key: IVec3) -> (r: Option<usize>)
        ensures
            match r {
                Some(i) => i < self.cells@.len() && self.cells@[i as int].key == key,
                None => forall|i: int| 0 <= i < self.cells@.len() ==> (#[trigger] self.cells@[i]).key != key,
            },
    {
        let mut i: usize = 0;
        while i < self.cells.len()
            invariant
                i <= self.cells@.len(),
                forall|k: int| 0 <= k < i ==> (#[trigger] self.cells@[k]).key != key,
            decreases self.cells@.len() - i,
        {
            if self.cells[i].key == key {
                return Some(i);
            }
            i = i + 1;
        }
        None
    }

    /// The position of `entity` if it is registered in the cell `key`.
    pub fn get_in_cell(&self, key: IVec3, entity: u64) -> (r: Option<IVec3>)
        requires
            self.wf(),
        ensures
            r == (if self@.contains_key(entity) && cell_key(self@[entity], self.size()) == key {
                Some(self@[entity])
            } else {
                None
            }),
    {
        proof {
            if self@.contains_key(entity) {
                let (i, j) = choose|i: int, j: int| #[trigger]
                    valid_slot(self.cells@, i, j) && self.cells@[i].entries@[j].entity == entity;
                assert(valid_slot(self.cells@, i, j));
            }
        }
        match self.find_cell(key) {
            Some(i) => match find_entity(&self.cells[i], entity) {
                Some(j) => {
                    assert(valid_slot(self.cells@, i as int, j as int));
                    Some(self.cells[i].entries[j].position)
                },
                None => None,
            },
            None => None,
        }
    }

    /// Takes `entity` out of the cell it is registered in, if any.
    fn detach(&mut self, entity: u64)
        requires
            old(self).wf(),
        ensures
            final(self).wf(),
            final(self).size() == old(self).size(),
            final(self)@ == old(self)@.remove(entity),
    {
        let mut k: usize = 0;
        while k < self.cells.len()
            invariant
                k <= self.cells@.len(),
                self.wf(),
                *self == *old(self),
                forall|i: int, j: int|
                    0 <= i < k && #[trigger] valid_slot(self.cells@, i, j) ==> self.cells@[i].entries@[j].entity
                        != entity,
            decreases self.cells@.len() - k,
        {
            match find_entity(&self.cells[k], entity) {
                Some(j) => {
                    let ghost before = self.cells@;
                    assert(valid_slot(before, k as int, j as int));
                    self.cells[k].entries.remove(j);
                    proof {
                        lemma_detach(before, self.cells@, self.positions@, self.cell_size, k as int, j as int);
                        self.positions@ = self.positions@.remove(entity);
                    }
                    return ;
                },
                None => {},
            }
            k = k + 1;
        }
        proof {
            if self.positions@.contains_key(entity) {
                let (i, j) = choose|i: int, j: int| #[trigger]
                    valid_slot(self.cells@, i, j) && self.cells@[i].entries@[j].entity == entity;
                assert(valid_slot(self.cells@, i, j));
            }
            assert(self.positions@ =~= old(self).positions@.remove(entity));
        }
    }

    /// Registers an entity that is in no cell yet.
    fn attach(&mut self, entity: u64, position: IVec3)
        requires
            old(self).wf(),
            !old(self)@.contains_key(entity),
        ensures
            final(self).wf(),
            final(self).size() == old(self).size(),
            final(self)@ == old(self)@.insert(entity, position),
    {
        let key: IVec3 = self.key(position);
        let entry = Entry { entity, position };
        let ghost before = self.cells@;
        match self.find_cell(key) {
            Some(i) => {
                self.cells[i].entries.push(entry);
                proof {
                    lemma_attach_existing(before, self.cells@, self.positions@, self.cell_size, i as int, entry);
                }
            },
            None => {
                let mut entries: Vec<Entry> = Vec::new();
                entries.push(entry);
                self.cells.push(Cell { key, entries });
                proof {
                    assert(self.cells@[before.len() as int].entries@ =~= seq![entry]);
                    lemma_attach_new(before, self.cells@, self.positions@, self.cell_size, entry);
                }
            },
        }
        proof {
            self.positions@ = self.positions@.insert(entity, position);
        }
    }

    /// Records where `entity` is now. An entity that stays in its cell keeps
    /// its entry with the new position; one that is new or has changed
    /// cells leaves its old cell and enters the cell of `position`.
    pub fn update(&mut self, entity: u64, position: IVec3)
        requires
            old(self).wf(),
        ensures
            final(self).wf(),
            final(self).size() == old(self).size(),
            final(self)@ == old(self)@.insert(entity, position),
    {
        let key: IVec3 = self.key(position);
        match self.find_cell(key) {
            Some(i) => match find_entity(&self.cells[i], entity) {
                Some(j) => {
                    let ghost before = self.cells@;
                    let entry = Entry { entity, position };
                    assert(valid_slot(before, i as int, j as int));
                    self.cells[i].entries[j] = entry;
                    proof {
                        lemma_refresh(before, self.cells@, self.positions@, self.cell_size, i as int, j as int, entry);
                        self.positions@ = self.positions@.insert(entity, position);
                    }
                    return ;
                },
                None => {},
            },
            None => {},
        }
        self.detach(entity);
        self.attach(entity, position);
        assert(self@ =~= old(self)@.insert(entity, position));
    }

    /// Collects the entities within `distance` of `position`. With
    /// `bucketed`, only the cells within reach of the cell of `position` are
    /// looked into; without, every cell is.
    fn scan(&self, position: IVec3, distance: u32, bucketed: bool) -> (result: Vec<u64>)
        requires
            self.wf(),
        ensures
            result@.no_duplicates(),
            result@.to_set() == nearby(self@, position, distance),
    {
        let center: IVec3 = self.key(position);
        let reach: i64 = (distance as i64 + self.cell_size as i64 - 1) / (self.cell_size as i64);
        proof {
            lemma_floor_div_bounds(distance + self.cell_size - 1, self.cell_size as int);
        }
        let mut result: Vec<u64> = Vec::new();
        let ghost mut sources: Seq<(int, int)> = Seq::empty();
        let mut i: usize = 0;
        while i < self.cells.len()
            invariant
                i <= self.cells@.len(),
                self.wf(),
                center == cell_key(position, self.size()),
                reach as int == cell_reach(distance, self.size()),
                0 <= reach <= 0x2_0000_0000,
                result@.no_duplicates(),
                sources.len() == result@.len(),
                forall|k: int|
                    0 <= k < result@.len() ==> {
                        let s = #[trigger] sources[k];
                        &&& valid_slot(self.cells@, s.0, s.1)
                        &&& self.cells@[s.0].entries@[s.1].entity == result@[k]
                        &&& within(self.cells@[s.0].entries@[s.1].position, position, distance)
                        &&& s.0 < i
                    },
                forall|i2: int, j2: int|
                    #[trigger] valid_slot(self.cells@, i2, j2) && i2 < i && within(
                        self.cells@[i2].entries@[j2].position,
                        position,
                        distance,
                    ) ==> result@.contains(self.cells@[i2].entries@[j2].entity),
            decreases self.cells@.len() - i,
        {
            if !bucketed || in_reach(self.cells[i].key, center, reach) {
                let mut j: usize = 0;
                while j < self.cells[i].entries.len()
                    invariant
                        i < self.cells@.len(),
                        j <= self.cells@[i as int].entries@.len(),
                        self.wf(),
                        result@.no_duplicates(),
                        sources.len() == result@.len(),
                        forall|k: int|
                            0 <= k < result@.len() ==> {
                                let s = #[trigger] sources[k];
                                &&& valid_slot(self.cells@, s.0, s.1)
                                &&& self.cells@[s.0].entries@[s.1].entity == result@[k]
                                &&& within(self.cells@[s.0].entries@[s.1].position, position, distance)
                                &&& (s.0 < i || (s.0 == i && s.1 < j))
                            },
                        forall|i2: int, j2: int|
                            #[trigger] valid_slot(self.cells@, i2, j2) && (i2 < i || (i2 == i && j2 < j))
                                && within(self.cells@[i2].entries@[j2].position, position, distance)
                                ==> result@.contains(self.cells@[i2].entries@[j2].entity),
                    decreases self.cells@[i as int].entries@.len() - j,
                {
                    let entry: Entry = self.cells[i].entries[j];
                    let ghost found = result@;
                    let ghost origins = sources;
                    let near: bool = is_within(entry.position, position, distance);
                    if near {
                        proof {
                            assert(valid_slot(self.cells@, i as int, j as int));
                            assert forall|k: int| 0 <= k < found.len() implies found[k] != entry.entity by {
                                let s = origins[k];
                                assert(valid_slot(self.cells@, s.0, s.1));
                            }
                        }
                        result.push(entry.entity);
                        proof {
                            sources = sources.push((i as int, j as int));
                        }
                    }
                    proof {
                        assert forall|k: int| 0 <= k < result@.len() implies {
                            let s = #[trigger] sources[k];
                            &&& valid_slot(self.cells@, s.0, s.1)
                            &&& self.cells@[s.0].entries@[s.1].entity == result@[k]
                            &&& within(self.cells@[s.0].entries@[s.1].position, position, distance)
                            &&& (s.0 < i || (s.0 == i && s.1 < j + 1))
                        } by {
                            if k < found.len() {
                                assert(sources[k] == origins[k]);
                                assert(result@[k] == found[k]);
                            } else {
                                assert(valid_slot(self.cells@, i as int, j as int));
                            }
                        }
                        assert forall|i2: int, j2: int|
                            #[trigger] valid_slot(self.cells@, i2, j2) && (i2 < i || (i2 == i && j2 < j + 1))
                                && within(
                                self.cells@[i2].entries@[j2].position,
                                position,
                                distance,
                            ) implies result@.contains(self.cells@[i2].entries@[j2].entity) by {
                            let e = self.cells@[i2].entries@[j2].entity;
                            if i2 == i && j2 == j {
                                assert(result@[found.len() as int] == e);
                            } else {
                                assert(found.contains(e));
                                let w = choose|w: int| 0 <= w < found.len() && found[w] == e;
                                assert(result@[w] == e);
                            }
                        }
                    }
                    j = j + 1;
                }
            } else {
                proof {
                    assert forall|j2: int| #[trigger]
                        valid_slot(self.cells@, i as int, j2) implies !within(
                        self.cells@[i as int].entries@[j2].position,
                        position,
                        distance,
                    ) by {
                        let p = self.cells@[i as int].entries@[j2].position;
                        if within(p, position, distance) {
                            lemma_within_implies_in_reach(p, position, distance, self.cell_size);
                        }
                    }
                }
            }
            i = i + 1;
        }
        proof {
            assert forall|e: u64| result@.to_set().contains(e) <==> nearby(
                self@,
                position,
                distance,
            ).contains(e) by {
                if result@.contains(e) {
                    let k = choose|k: int| 0 <= k < result@.len() && result@[k] == e;
                    let s = sources[k];
                    assert(valid_slot(self.cells@, s.0, s.1));
                }
                if self@.contains_key(e) && within(self@[e], position, distance) {
                    let (i2, j2) = choose|i2: int, j2: int| #[trigger]
                        valid_slot(self.cells@, i2, j2) && self.cells@[i2].entries@[j2].entity == e;
                    assert(valid_slot(self.cells@, i2, j2));
                }
            }
            assert(result@.to_set() =~= nearby(self@, position, distance));
        }
        result
    }

    /// The entities within `distance` of `position`, each once, in no
    /// particular order. Only the cells within reach are looked into.
    pub fn get_nearby(&self, position: IVec3, distance: u32) -> (result: Vec<u64>)
        requires
            self.wf(),
        ensures
            result@.no_duplicates(),
            result@.to_set() == nearby(self@, position, distance),
    {
        self.scan(position, distance, true)
    }

    /// The entities within `distance` of `position`, each once, in no
    /// particular order. Every cell is looked into.
    pub fn get_nearby_naive(&self, position: IVec3, distance: u32) -> (result: Vec<u64>)
        requires
            self.wf(),
        ensures
            result@.no_duplicates(),
            result@.to_set() == nearby(self@, position, distance),
    {
        self.scan(position, distance, false)
    }
}

/// Whether a cell lies within `reach` cells of `center` on every axis.
fn in_reach(key: IVec3, center: IVec3, reach: i64) -> (r: bool)
    requires
        0 <= reach <= 0x2_0000_0000,
    ensures
        r == key_in_reach(key, center, reach as int),
{
    let dx: i64 = key.x as i64 - center.x as i64;
    let dy: i64 = key.y as i64 - center.y as i64;
    let dz: i64 = key.z as i64 - center.z as i64;
    -reach <= dx && dx <= reach && -reach <= dy && dy <= reach && -reach <= dz && dz <= reach
}

/// Both ways of searching find the same entities, whatever updates came
/// before: each returns, without repetition, exactly the entities of the
/// index that lie within the distance.
pub proof fn lemma_searches_agree(
    positions: Map<u64, IVec3>,
    position: IVec3,
    distance: u32,
    bucketed: Seq<u64>,
    naive: Seq<u64>,
)
    requires
        bucketed.to_set() == nearby(positions, position, distance),
        naive.to_set() == nearby(positions, position, distance),
    ensures
        bucketed.to_set() == naive.to_set(),
        forall|e: u64| bucketed.contains(e) <==> naive.contains(e),
{
    assert forall|e: u64| bucketed.contains(e) <==> naive.contains(e) by {
        assert(bucketed.to_set().contains(e) == bucketed.contains(e));
        assert(naive.to_set().contains(e) == naive.contains(e));
    }
}

} // verus!
