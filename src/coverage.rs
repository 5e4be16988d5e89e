//! Hierarchical coverage of the view and the field-of-view state.

use vstd::prelude::*;

verus! {

/// Fewest cells a view coverage should hold before the search for a deeper
/// depth stops. An empirical tuning value, not a correctness bound.
pub const MIN_COVERAGE_CELLS: usize = 7;

/// Number of cells of the tessellation at depth 0.
pub const NUM_BASE_CELLS: u64 = 12;

/// Deepest depth of the tessellation.
pub open spec fn max_depth() -> u8 {
    29
}

/// Relies on cdshealpix::DEPTH_MAX: the deepest HEALPix depth the crate handles (29).
#[verifier::external_body]
fn healpix_depth_max() -> (r: u8)
    ensures
        r == max_depth(),
{
    cdshealpix::DEPTH_MAX
}

/// A set of cells of the hierarchical tessellation of the sphere, all at one depth.
#[derive(Clone, Debug)]
pub struct Coverage {
    depth: u8,
    cells: Vec<u64>,
}

impl Coverage {
    pub closed spec fn depth_spec(&self) -> u8 {
        self.depth
    }

    pub closed spec fn cells_spec(&self) -> Seq<u64> {
        self.cells@
    }

    /// The cells of the coverage, as a set.
    pub open spec fn cell_set(&self) -> Set<u64> {
        Set::new(|c: u64| self.cells_spec().contains(c))
    }

    /// The depth is supported and the cells are listed in increasing order,
    /// each once.
    pub open spec fn wf(&self) -> bool {
        self.depth_spec() <= max_depth() && strictly_sorted(self.cells_spec())
    }

    /// The coverage of the whole sphere: the twelve base cells.
    pub fn allsky() -> (c: Coverage)
        ensures
            c.wf(),
            c.depth_spec() == 0,
            c.cell_set() == allsky_cells(),
            c.cells_spec().len() == NUM_BASE_CELLS,
    {
        let mut cells: Vec<u64> = Vec::new();
        let mut i: u64 = 0;
        while i < NUM_BASE_CELLS
            invariant
                i <= NUM_BASE_CELLS,
                cells@.len() == i,
                forall|k: int| 0 <= k < i ==> #[trigger] cells@[k] == k,
            decreases NUM_BASE_CELLS - i,
        {
            cells.push(i);
            i = i + 1;
        }
        let c = Coverage { depth: 0, cells };
        proof {
            assert forall|x: u64| c.cell_set().contains(x) <==> allsky_cells().contains(x) by {
                if x < NUM_BASE_CELLS {
                    assert(c.cells_spec()[x as int] == x);
                }
            }
            assert(c.cell_set() =~= allsky_cells());
        }
        c
    }

    /// The depth of the cells.
    pub fn depth(&self) -> (r: u8)
        ensures
            r == self.depth_spec(),
    {
        self.depth
    }

    /// Number of cells in the coverage.
    pub fn size(&self) -> (r: usize)
        ensures
            r == self.cells_spec().len(),
    {
        self.cells.len()
    }

    /// The cells of the coverage.
    pub fn cells(&self) -> (r: &Vec<u64>)
        ensures
            r@ == self.cells_spec(),
    {
        &self.cells
    }

    /// Whether `cell` belongs to the coverage.
    pub fn contains(&self, cell: u64) -> (r: bool)
        ensures
            r == self.cell_set().contains(cell),
    {
        seq_contains(&self.cells, cell)
    }

    /// The coverage at `depth` made of the cells that the polygon touches, of
    /// the cells that hold its vertices and of the cell that holds its
    /// interior point, in increasing order, each once.
    pub fn covering(depth: u8, polygon_cells: &Vec<u64>, vertex_cells: &Vec<u64>, interior_cell: u64) -> (c: Coverage)
        requires
            depth <= max_depth(),
        ensures
            c.wf(),
            c.depth_spec() == depth,
            c.cell_set() == covering_set(polygon_cells@, vertex_cells@, interior_cell),
    {
        let mut cells: Vec<u64> = Vec::new();
        add_cells(&mut cells, polygon_cells);
        add_cells(&mut cells, vertex_cells);
        add_cell(&mut cells, interior_cell);
        let c = Coverage { depth, cells };
        proof {
            assert(c.cell_set() =~= covering_set(polygon_cells@, vertex_cells@, interior_cell));
        }
        c
    }

    /// This coverage with the given cells added, each listed once.
    pub fn with_cells(self, extra: &Vec<u64>) -> (c: Coverage)
        requires
            self.wf(),
        ensures
            c.wf(),
            c.depth_spec() == self.depth_spec(),
            c.cell_set() == self.cell_set().union(extra@.to_set()),
    {
        let Coverage { depth, mut cells } = self;
        add_cells(&mut cells, extra);
        let c = Coverage { depth, cells };
        proof {
            assert(c.cell_set() =~= self.cell_set().union(extra@.to_set()));
        }
        c
    }

    /// This coverage with one cell added.
    pub fn with_cell(self, cell: u64) -> (c: Coverage)
        requires
            self.wf(),
        ensures
            c.wf(),
            c.depth_spec() == self.depth_spec(),
            c.cell_set() == self.cell_set().insert(cell),
    {
        let Coverage { depth, mut cells } = self;
        add_cell(&mut cells, cell);
        let c = Coverage { depth, cells };
        proof {
            assert(c.cell_set() =~= self.cell_set().insert(cell));
        }
        c
    }
}

/// The whole sphere at depth 0.
pub open spec fn allsky_cells() -> Set<u64> {
    Set::new(|c: u64| c < NUM_BASE_CELLS)
}

fn seq_contains(v: &Vec<u64>, x: u64) -> (r: bool)
    ensures
        r == v@.contains(x),
{
    let mut i: usize = 0;
    while i < v.len()
        invariant
            i <= v@.len(),
            forall|k: int| 0 <= k < i ==> v@[k] != x,
        decreases v@.len() - i,
    {
        if v[i] == x {
            return true;
        }
        i = i + 1;
    }
    false
}

/// Each value greater than the one before it.
pub open spec fn strictly_sorted(s: Seq<u64>) -> bool {
    forall|i: int, j: int| 0 <= i < j < s.len() ==> s[i] < s[j]
}

/// Inserts `x` in its place in the increasing list `cells`, unless it is there.
fn add_cell(cells: &mut Vec<u64>, x: u64)
    requires
        strictly_sorted(old(cells)@),
    ensures
        strictly_sorted(final(cells)@),
        forall|y: u64| #[trigger] final(cells)@.contains(y) <==> (old(cells)@.contains(y) || y == x),
{
    let mut i: usize = 0;
    while i < cells.len() && cells[i] < x
        invariant
            i <= cells@.len(),
            forall|k: int| 0 <= k < i ==> cells@[k] < x,
        decreases cells@.len() - i,
    {
        i = i + 1;
    }
    if i < cells.len() && cells[i] == x {
        proof {
            assert forall|y: u64| #[trigger] cells@.contains(y) <==> (old(cells)@.contains(y) || y == x) by {
                if y == x {
                    assert(cells@[i as int] == x);
                }
            }
        }
        return;
    }
    let ghost before = cells@;
    proof {
        assert forall|k: int| i <= k < before.len() implies before[k] > x by {
            if k > i {
                assert(before[i as int] < before[k]);
            }
        }
    }
    cells.insert(i, x);
    proof {
        assert(cells@.len() == before.len() + 1);
        assert forall|k: int| 0 <= k < i implies cells@[k] == before[k] by {}
        assert(cells@[i as int] == x);
        assert forall|k: int| i < k < cells@.len() implies cells@[k] == before[k - 1] by {}
        assert forall|a: int, b: int| 0 <= a < b < cells@.len() implies cells@[a] < cells@[b] by {
            if b < i {
            } else if b == i {
            } else if a < i {
                assert(cells@[a] < x);
            } else if a == i {
            } else {
                assert(before[a - 1] < before[b - 1]);
            }
        }
        assert forall|y: u64| #[trigger] cells@.contains(y) <==> (before.contains(y) || y == x) by {
            if cells@.contains(y) && y != x {
                let k = choose|k: int| 0 <= k < cells@.len() && cells@[k] == y;
                if k < i {
                    assert(before[k] == y);
                } else if k > i {
                    assert(before[k - 1] == y);
                }
            }
            if before.contains(y) {
                let k = choose|k: int| 0 <= k < before.len() && before[k] == y;
                if k < i {
                    assert(cells@[k] == y);
                } else {
                    assert(cells@[k + 1] == y);
                }
            }
        }
    }
}

/// Adds each cell of `add` to the increasing list `cells`.
fn add_cells(cells: &mut Vec<u64>, add: &Vec<u64>)
    requires
        strictly_sorted(old(cells)@),
    ensures
        strictly_sorted(final(cells)@),
        forall|x: u64| #[trigger] final(cells)@.contains(x) <==> (old(cells)@.contains(x) || add@.contains(x)),
{
    let mut i: usize = 0;
    while i < add.len()
        invariant
            i <= add@.len(),
            strictly_sorted(cells@),
            forall|x: u64| #[trigger] cells@.contains(x) <==> (old(cells)@.contains(x) || add@.subrange(0, i as int).contains(x)),
        decreases add@.len() - i,
    {
        let x = add[i];
        let ghost before = cells@;
        add_cell(cells, x);
        proof {
            assert(add@.subrange(0, i + 1) =~= add@.subrange(0, i as int).push(x));
            assert forall|y: u64| #[trigger] cells@.contains(y) <==> (old(cells)@.contains(y) || add@.subrange(0, i + 1).contains(y)) by {
                if add@.subrange(0, i as int).push(x).contains(y) && y != x {
                    let k = choose|k: int| 0 <= k < i + 1 && add@.subrange(0, i as int).push(x)[k] == y;
                    assert(add@.subrange(0, i as int)[k] == y);
                }
                if y == x {
                    assert(add@.subrange(0, i + 1)[i as int] == x);
                }
                if add@.subrange(0, i as int).contains(y) {
                    let k = choose|k: int| 0 <= k < i && add@.subrange(0, i as int)[k] == y;
                    assert(add@.subrange(0, i + 1)[k] == y);
                }
                assert(before.contains(y) ==> cells@.contains(y));
            }
        }
        i = i + 1;
    }
    proof {
        assert(add@.subrange(0, add@.len() as int) =~= add@);
    }
}

/// The cells that the polygon touches together with the cells of its
/// vertices and the cell of its interior point.
pub open spec fn covering_set(polygon_cells: Seq<u64>, vertex_cells: Seq<u64>, interior_cell: u64) -> Set<u64> {
    Set::new(|x: u64| polygon_cells.contains(x) || vertex_cells.contains(x) || x == interior_cell)
}

/// The depth the search for a view coverage moves on to, if it goes on: one
/// level deeper while the coverage holds fewer than `MIN_COVERAGE_CELLS`
/// cells and the deepest depth is not reached.
pub fn next_coverage_depth(c: &Coverage) -> (r: Option<u8>)
    requires
        c.wf(),
    ensures
        r == (if c.cells_spec().len() < MIN_COVERAGE_CELLS && c.depth_spec() < max_depth() {
            Some((c.depth_spec() + 1) as u8)
        } else {
            None::<u8>
        }),
{
    let depth = c.depth();
    if c.size() < MIN_COVERAGE_CELLS && depth < healpix_depth_max() {
        Some(depth + 1)
    } else {
        None
    }
}

/// Every cell of `fine` lies inside a cell of `coarse`, one level up.
pub open spec fn refines(fine: Set<u64>, coarse: Set<u64>) -> bool {
    forall|c: u64| #[trigger] fine.contains(c) ==> coarse.contains(c / 4)
}

/// Covering one level deeper keeps within the coarser covering: when every
/// cell the polygon touches one level deeper lies inside a cell it touches at
/// the coarser level, and each vertex cell and the interior cell one level
/// deeper lie inside the same point's coarser cell, the deeper covering lies
/// inside the coarser one.
pub proof fn lemma_covering_refines(p1: Seq<u64>, v1: Seq<u64>, i1: u64, p2: Seq<u64>, v2: Seq<u64>, i2: u64)
    requires
        forall|i: int| 0 <= i < p2.len() ==> #[trigger] p1.contains(p2[i] / 4),
        v2.len() == v1.len(),
        forall|i: int| 0 <= i < v2.len() ==> #[trigger] v2[i] / 4 == v1[i],
        i2 / 4 == i1,
    ensures
        refines(covering_set(p2, v2, i2), covering_set(p1, v1, i1)),
{
    assert forall|c: u64| #[trigger] covering_set(p2, v2, i2).contains(c) implies covering_set(p1, v1, i1).contains(c / 4) by {
        if c == i2 {
        } else if p2.contains(c) {
            let i = choose|i: int| 0 <= i < p2.len() && p2[i] == c;
            assert(p1.contains(p2[i] / 4));
        } else {
            let i = choose|i: int| 0 <= i < v2.len() && v2[i] == c;
            assert(v2[i] / 4 == v1[i]);
            assert(v1.contains(v1[i]));
        }
    }
}

/// Whether the view is drawn as a polygon rather than as the whole sky: the
/// aperture is below the projection's raster threshold and at least three
/// boundary samples projected.
pub open spec fn polygon_wanted(aperture: u64, threshold: u64, num_vertices: nat) -> bool {
    aperture < threshold && num_vertices >= 3
}

/// The boundary samples that projected, in order.
pub open spec fn projected<V>(s: Seq<Option<V>>) -> Seq<V>
    decreases s.len(),
{
    if s.len() == 0 {
        seq![]
    } else {
        let rest = projected(s.drop_last());
        match s.last() {
            Some(v) => rest.push(v),
            None => rest,
        }
    }
}

/// Drops the boundary samples that have no projection.
pub fn keep_projected<V: Copy>(samples: &Vec<Option<V>>) -> (r: Vec<V>)
    ensures
        r@ == projected(samples@),
{
    let mut r: Vec<V> = Vec::new();
    let mut i: usize = 0;
    while i < samples.len()
        invariant
            i <= samples@.len(),
            r@ == projected(samples@.subrange(0, i as int)),
        decreases samples@.len() - i,
    {
        proof {
            assert(samples@.subrange(0, i + 1).drop_last() =~= samples@.subrange(0, i as int));
        }
        match samples[i] {
            Some(v) => r.push(v),
            None => {},
        }
        i = i + 1;
    }
    proof {
        assert(samples@.subrange(0, samples@.len() as int) =~= samples@);
    }
    r
}

/// The visible part of the sky: either a polygon of boundary vertices with
/// its coverage, or the whole sky.
pub struct FieldOfViewVertices<V> {
    vertices: Option<Vec<V>>,
    interior: Option<V>,
    vertex_cells: Vec<u64>,
    interior_cell: u64,
    coverage: Coverage,
}

impl<V> FieldOfViewVertices<V> {
    pub closed spec fn boundary_spec(&self) -> Option<Seq<V>> {
        match &self.vertices {
            Some(v) => Some(v@),
            None => None,
        }
    }

    pub closed spec fn vertex_cells_spec(&self) -> Seq<u64> {
        self.vertex_cells@
    }

    /// The point inside the polygon, derived from the view's center.
    pub closed spec fn interior_spec(&self) -> Option<V> {
        self.interior
    }

    pub closed spec fn interior_cell_spec(&self) -> u64 {
        self.interior_cell
    }

    pub closed spec fn coverage_spec(&self) -> Coverage {
        self.coverage
    }

    /// The coverage is well formed; a polygon has at least three vertices, an
    /// interior point, and its coverage holds the cell of each vertex and of
    /// the interior point; the whole sky has the all-sky coverage.
    pub open spec fn wf(&self) -> bool {
        &&& self.coverage_spec().wf()
        &&& self.boundary_spec().is_none() ==> {
            &&& self.coverage_spec().depth_spec() == 0
            &&& self.coverage_spec().cell_set() == allsky_cells()
        }
        &&& self.boundary_spec().is_some() ==> {
            &&& self.boundary_spec().unwrap().len() >= 3
            &&& self.interior_spec().is_some()
            &&& self.coverage_spec().cell_set().contains(self.interior_cell_spec())
            &&& forall|i: int| 0 <= i < self.vertex_cells_spec().len()
                ==> self.coverage_spec().cell_set().contains(#[trigger] self.vertex_cells_spec()[i])
        }
    }

    /// A field of view showing the whole sky.
    pub fn new() -> (f: Self)
        ensures
            f.wf(),
            f.boundary_spec().is_none(),
    {
        FieldOfViewVertices::all_sky()
    }

    fn all_sky() -> (f: Self)
        ensures
            f.wf(),
            f.boundary_spec().is_none(),
            f.coverage_spec().depth_spec() == 0,
            f.coverage_spec().cell_set() == allsky_cells(),
    {
        FieldOfViewVertices {
            vertices: None,
            interior: None,
            vertex_cells: Vec::new(),
            interior_cell: 0,
            coverage: Coverage::allsky(),
        }
    }

    /// Updates the view for the current aperture. Below the raster threshold
    /// and with at least three vertices, the view becomes the polygon of
    /// `vertices` tagged with `interior`, a point inside it; it is covered by
    /// `coverage` together with `vertex_cells` and `interior_cell` (the cells,
    /// at the coverage's depth, that hold the vertices and the interior point).
    /// Otherwise it becomes the whole sky. Nothing of the previous state is kept.
    pub fn set_great_circles(
        &mut self,
        aperture: u64,
        threshold: u64,
        vertices: Vec<V>,
        interior: V,
        vertex_cells: &Vec<u64>,
        interior_cell: u64,
        coverage: Coverage,
    )
        requires
            coverage.wf(),
        ensures
            final(self).wf(),
            polygon_wanted(aperture, threshold, vertices@.len()) ==> {
                &&& final(self).boundary_spec() == Some(vertices@)
                &&& final(self).interior_spec() == Some(interior)
                &&& final(self).vertex_cells_spec() == vertex_cells@
                &&& final(self).interior_cell_spec() == interior_cell
                &&& final(self).coverage_spec().depth_spec() == coverage.depth_spec()
                &&& final(self).coverage_spec().cell_set()
                    == coverage.cell_set().union(vertex_cells@.to_set()).insert(interior_cell)
            },
            !polygon_wanted(aperture, threshold, vertices@.len()) ==> {
                &&& final(self).boundary_spec().is_none()
                &&& final(self).coverage_spec().depth_spec() == 0
                &&& final(self).coverage_spec().cell_set() == allsky_cells()
            },
    {
        if aperture < threshold && vertices.len() >= 3 {
            let full = coverage.with_cells(vertex_cells).with_cell(interior_cell);
            let cells = copy_cells(vertex_cells);
            proof {
                assert forall|i: int| 0 <= i < cells@.len() implies full.cell_set().contains(#[trigger] cells@[i]) by {
                    assert(vertex_cells@.to_set().contains(vertex_cells@[i]));
                }
            }
            *self = FieldOfViewVertices {
                vertices: Some(vertices),
                interior: Some(interior),
                vertex_cells: cells,
                interior_cell,
                coverage: full,
            };
        } else {
            *self = FieldOfViewVertices::all_sky();
        }
    }

    /// The boundary polygon, absent when the whole sky is shown.
    pub fn get_vertices(&self) -> (r: Option<&Vec<V>>)
        ensures
            r.is_some() == self.boundary_spec().is_some(),
            r.is_some() ==> r.unwrap()@ == self.boundary_spec().unwrap(),
    {
        match &self.vertices {
            Some(v) => Some(v),
            None => None,
        }
    }

    /// The point inside the polygon, absent when the whole sky is shown.
    pub fn get_interior(&self) -> (r: Option<&V>)
        ensures
            r.is_some() == self.interior_spec().is_some(),
            r.is_some() ==> *r.unwrap() == self.interior_spec().unwrap(),
    {
        match &self.interior {
            Some(v) => Some(v),
            None => None,
        }
    }

    /// The current coverage.
    pub fn get_coverage(&self) -> (r: &Coverage)
        ensures
            *r == self.coverage_spec(),
    {
        &self.coverage
    }

    /// The depth of the current coverage.
    pub fn get_depth(&self) -> (r: u8)
        ensures
            r == self.coverage_spec().depth_spec(),
    {
        self.coverage.depth()
    }
}

fn copy_cells(v: &Vec<u64>) -> (r: Vec<u64>)
    ensures
        r@ == v@,
{
    let mut r: Vec<u64> = Vec::new();
    let mut i: usize = 0;
    while i < v.len()
        invariant
            i <= v@.len(),
            r@ == v@.subrange(0, i as int),
        decreases v@.len() - i,
    {
        r.push(v[i]);
        i = i + 1;
        proof {
            assert(r@ =~= v@.subrange(0, i as int));
        }
    }
    proof {
        assert(v@.subrange(0, v@.len() as int) =~= v@);
    }
    r
}

/// No under-covering: in a well-formed polygon view, the coverage holds the
/// cell of every boundary vertex and of the interior point.
pub proof fn lemma_boundary_covered<V>(f: FieldOfViewVertices<V>)
    requires
        f.wf(),
        f.boundary_spec().is_some(),
    ensures
        f.coverage_spec().cell_set().contains(f.interior_cell_spec()),
        forall|i: int| 0 <= i < f.vertex_cells_spec().len()
            ==> f.coverage_spec().cell_set().contains(#[trigger] f.vertex_cells_spec()[i]),
{
}

/// Samples per side of the screen between the corners.
pub const NUM_VERTICES_WIDTH: usize = 10;

/// Samples per side of the screen between the corners, vertically.
pub const NUM_VERTICES_HEIGHT: usize = 10;

/// Number of samples on the ring around the screen.
pub const NUM_VERTICES: usize = 44;

/// Normalized device coordinates are held as numerators over this denominator.
pub const NDC_DENOM: i32 = 11;

/// Horizontal coordinate (over `NDC_DENOM`) of sample `k` of the screen ring:
/// left to right along the bottom, up the right side, right to left along
/// the top, down the left side.
pub open spec fn ring_x(k: int) -> int {
    if k < 12 { -11 + 2 * k }
    else if k < 22 { 11 }
    else if k < 34 { 11 - 2 * (k - 22) }
    else { -11 }
}

/// Vertical coordinate (over `NDC_DENOM`) of sample `k` of the screen ring.
pub open spec fn ring_y(k: int) -> int {
    if k < 11 { -11 }
    else if k < 23 { -11 + 2 * (k - 11) }
    else if k < 33 { 11 }
    else { 11 - 2 * (k - 33) }
}

/// The ring of screen samples whose projections bound the field of view,
/// in normalized device coordinates over `NDC_DENOM`.
pub fn ndc_ring() -> (r: Vec<(i32, i32)>)
    ensures
        r@.len() == NUM_VERTICES,
        forall|k: int| 0 <= k < NUM_VERTICES ==> #[trigger] r@[k] == (ring_x(k) as i32, ring_y(k) as i32),
{
    let mut r: Vec<(i32, i32)> = Vec::new();
    let mut k: usize = 0;
    while k < NUM_VERTICES
        invariant
            k <= NUM_VERTICES,
            r@.len() == k,
            forall|j: int| 0 <= j < k ==> #[trigger] r@[j] == (ring_x(j) as i32, ring_y(j) as i32),
        decreases NUM_VERTICES - k,
    {
        let i = k as i32;
        let x: i32 = if k < 12 { -11 + 2 * i } else if k < 22 { 11 } else if k < 34 { 11 - 2 * (i - 22) } else { -11 };
        let y: i32 = if k < 11 { -11 } else if k < 23 { -11 + 2 * (i - 11) } else if k < 33 { 11 } else { 11 - 2 * (i - 33) };
        r.push((x, y));
        k = k + 1;
    }
    r
}

} // verus!
