//! Grid-line spacing, the positions of meridians and parallels, and the
//! control points of each line.

use vstd::prelude::*;

use crate::angle::HALF_PI_UAS;
use crate::subdivision::{mid_coord, mid_coord_of, ArcSpan, LonLat, Subdivision, COORD_LIMIT};

verus! {

/// Number of entries in the table of grid steps.
pub const NUM_GRID_STEPS: usize = 35;

/// The table of grid steps, in microarcseconds, from the coarsest (20 degrees)
/// to the finest (one microarcsecond).
pub open spec fn step_at(i: int) -> nat {
    if i == 0 { 72_000_000_000 }
    else if i == 1 { 36_000_000_000 }
    else if i == 2 { 18_000_000_000 }
    else if i == 3 { 7_200_000_000 }
    else if i == 4 { 3_600_000_000 }
    else if i == 5 { 1_800_000_000 }
    else if i == 6 { 900_000_000 }
    else if i == 7 { 600_000_000 }
    else if i == 8 { 300_000_000 }
    else if i == 9 { 120_000_000 }
    else if i == 10 { 60_000_000 }
    else if i == 11 { 30_000_000 }
    else if i == 12 { 15_000_000 }
    else if i == 13 { 10_000_000 }
    else if i == 14 { 5_000_000 }
    else if i == 15 { 2_000_000 }
    else if i == 16 { 1_000_000 }
    else if i == 17 { 500_000 }
    else if i == 18 { 200_000 }
    else if i == 19 { 100_000 }
    else if i == 20 { 50_000 }
    else if i == 21 { 20_000 }
    else if i == 22 { 10_000 }
    else if i == 23 { 5_000 }
    else if i == 24 { 2_000 }
    else if i == 25 { 1_000 }
    else if i == 26 { 500 }
    else if i == 27 { 200 }
    else if i == 28 { 100 }
    else if i == 29 { 50 }
    else if i == 30 { 20 }
    else if i == 31 { 10 }
    else if i == 32 { 5 }
    else if i == 33 { 2 }
    else { 1 }
}

/// Entry `i` of the table of grid steps.
pub fn grid_step(i: usize) -> (r: u64)
    requires
        i < NUM_GRID_STEPS,
    ensures
        r == step_at(i as int),
        r >= 1,
{
    match i {
        0 => 72_000_000_000,
        1 => 36_000_000_000,
        2 => 18_000_000_000,
        3 => 7_200_000_000,
        4 => 3_600_000_000,
        5 => 1_800_000_000,
        6 => 900_000_000,
        7 => 600_000_000,
        8 => 300_000_000,
        9 => 120_000_000,
        10 => 60_000_000,
        11 => 30_000_000,
        12 => 15_000_000,
        13 => 10_000_000,
        14 => 5_000_000,
        15 => 2_000_000,
        16 => 1_000_000,
        17 => 500_000,
        18 => 200_000,
        19 => 100_000,
        20 => 50_000,
        21 => 20_000,
        22 => 10_000,
        23 => 5_000,
        24 => 2_000,
        25 => 1_000,
        26 => 500,
        27 => 200,
        28 => 100,
        29 => 50,
        30 => 20,
        31 => 10,
        32 => 5,
        33 => 2,
        _ => 1,
    }
}

/// Number of whole grid steps that fit in a field of view.
pub open spec fn line_count(fov: nat, step: nat) -> nat {
    if step == 0 { 0 } else { fov / step }
}

/// Step `i` already puts at least `max_lines - 1` lines in the field of view.
pub open spec fn saturates(fov: nat, max_lines: nat, i: int) -> bool {
    fov >= step_at(i) && line_count(fov, step_at(i)) + 1 >= max_lines
}

/// Index of the selected step, scanning the table from entry `i` on: the entry
/// just coarser than the first one that saturates the field of view (the first
/// entry itself when it is the coarsest), or the finest entry when none does.
pub open spec fn selected_index_from(fov: nat, max_lines: nat, i: int) -> int
    decreases NUM_GRID_STEPS - i,
{
    if i < 0 || i >= NUM_GRID_STEPS {
        NUM_GRID_STEPS - 1
    } else if saturates(fov, max_lines, i) {
        if i == 0 { 0 } else { i - 1 }
    } else {
        selected_index_from(fov, max_lines, i + 1)
    }
}

/// The grid step chosen for a field of view of `fov` and a target of `max_lines` lines.
pub open spec fn selected_step(fov: nat, max_lines: nat) -> nat {
    step_at(selected_index_from(fov, max_lines, 0))
}

/// Chooses the spacing of grid lines across a field of view of `fov`
/// microarcseconds, so that about `max_lines` lines cross it.
pub fn select_grid_step(fov: u64, max_lines: usize) -> (step: u64)
    requires
        max_lines >= 1,
    ensures
        step == selected_step(fov as nat, max_lines as nat),
{
    let mut i: usize = 0;
    let mut step: u64 = grid_step(0);
    while i < NUM_GRID_STEPS
        invariant
            i <= NUM_GRID_STEPS,
            max_lines >= 1,
            selected_index_from(fov as nat, max_lines as nat, 0)
                == selected_index_from(fov as nat, max_lines as nat, i as int),
            i == NUM_GRID_STEPS ==> step == step_at(NUM_GRID_STEPS - 1),
        decreases NUM_GRID_STEPS - i,
    {
        let s = grid_step(i);
        if fov >= s {
            let num_lines = fov / s;
            if num_lines >= (max_lines - 1) as u64 {
                let idx: usize = if i == 0 { 0 } else { i - 1 };
                return grid_step(idx);
            }
        }
        step = s;
        i = i + 1;
    }
    step
}

/// With at most `max_lines + 1` lines at the coarsest step, the selected step
/// never puts more than `max_lines + 1` lines in the field of view.
pub proof fn lemma_selected_step_line_bound(fov: nat, max_lines: nat)
    requires
        max_lines >= 1,
        line_count(fov, step_at(0)) <= max_lines + 1,
    ensures
        line_count(fov, selected_step(fov, max_lines)) <= max_lines + 1,
{
    lemma_selected_from_bound(fov, max_lines, 0);
}

proof fn lemma_selected_from_bound(fov: nat, max_lines: nat, i: int)
    requires
        max_lines >= 1,
        0 <= i <= NUM_GRID_STEPS,
        line_count(fov, step_at(0)) <= max_lines + 1,
        i > 0 ==> !saturates(fov, max_lines, i - 1),
    ensures
        line_count(fov, step_at(selected_index_from(fov, max_lines, i))) <= max_lines + 1,
    decreases NUM_GRID_STEPS - i,
{
    if i >= NUM_GRID_STEPS {
        lemma_unsaturated_bound(fov, max_lines, NUM_GRID_STEPS - 1);
    } else if saturates(fov, max_lines, i) {
        if i > 0 {
            lemma_unsaturated_bound(fov, max_lines, i - 1);
        }
    } else {
        lemma_selected_from_bound(fov, max_lines, i + 1);
    }
}

proof fn lemma_unsaturated_bound(fov: nat, max_lines: nat, i: int)
    requires
        max_lines >= 1,
        0 <= i < NUM_GRID_STEPS,
        !saturates(fov, max_lines, i),
    ensures
        line_count(fov, step_at(i)) <= max_lines + 1,
{
    let s = step_at(i);
    assert(s >= 1);
    if fov < s {
        assert(fov / s == 0) by (nonlinear_arith)
            requires fov < s, s >= 1;
    }
}

/// Target number of parallels across the field of view; the target for
/// meridians is this number scaled by the aspect ratio of the screen.
pub const NUM_LINES_LATITUDES: usize = 6;

/// Pull-back (a thousandth of a radian) that keeps the last meridian of a full
/// turn from doubling the first one, and a parallel off a pole.
pub const EDGE_EPSILON_UAS: i64 = 206_264_806;

/// Subdivision budget of a grid line, in levels.
pub const LINE_SUBDIVISION_DEPTH: usize = 7;

/// Number of subdivision levels forced on a grid line.
pub const LINE_MIN_SUBDIVISION: u32 = 2;

/// The longitude/latitude box that holds the field of view.
#[derive(Clone, Copy, Debug, PartialEq, Eq, Structural)]
pub struct BoundingBox {
    pub lon_min: i64,
    pub lon_max: i64,
    pub lat_min: i64,
    pub lat_max: i64,
    pub all_lon: bool,
    pub contains_pole: bool,
}

impl BoundingBox {
    pub open spec fn valid(&self) -> bool {
        &&& -COORD_LIMIT <= self.lon_min <= self.lon_max <= COORD_LIMIT
        &&& -HALF_PI_UAS <= self.lat_min <= self.lat_max <= HALF_PI_UAS
    }

    pub fn lon_size(&self) -> (r: u64)
        requires
            self.valid(),
        ensures
            r == self.lon_max - self.lon_min,
    {
        (self.lon_max - self.lon_min) as u64
    }

    pub fn lat_size(&self) -> (r: u64)
        requires
            self.valid(),
        ensures
            r == self.lat_max - self.lat_min,
    {
        (self.lat_max - self.lat_min) as u64
    }
}

/// `x` rounded toward zero to a multiple of `step`.
pub open spec fn trunc_to_step(x: int, step: int) -> int {
    if x >= 0 { (x / step) * step } else { -(((-x) / step) * step) }
}

/// `r` lists `first`, `first + step`, ... up to the last value below `stop`.
pub open spec fn is_progression(r: Seq<i64>, first: int, stop: int, step: int) -> bool {
    &&& forall|k: int| 0 <= k < r.len() ==> #[trigger] r[k] == first + k * step
    &&& forall|k: int| 0 <= k < r.len() ==> #[trigger] r[k] < stop
    &&& first + r.len() * step >= stop
}

fn trunc_to_step_of(x: i64, step: u64) -> (r: i64)
    requires
        -COORD_LIMIT <= x <= COORD_LIMIT,
        step >= 1,
    ensures
        r == trunc_to_step(x as int, step as int),
        -COORD_LIMIT <= r <= COORD_LIMIT,
{
    let m: u64 = if x < 0 { (-x) as u64 } else { x as u64 };
    proof {
        assert((m / step) * step <= m) by (nonlinear_arith)
            requires step >= 1;
    }
    let t: u64 = (m / step) * step;
    if x < 0 { -(t as i64) } else { t as i64 }
}

fn progression(first: i64, stop: i64, step: u64) -> (r: Vec<i64>)
    requires
        -2 * COORD_LIMIT <= first <= 2 * COORD_LIMIT,
        -2 * COORD_LIMIT <= stop <= 2 * COORD_LIMIT,
        1 <= step <= COORD_LIMIT,
    ensures
        is_progression(r@, first as int, stop as int, step as int),
{
    let mut r: Vec<i64> = Vec::new();
    let mut v: i64 = first;
    proof {
        assert(first + r@.len() * step == first) by (nonlinear_arith)
            requires r@.len() == 0;
    }
    while v < stop
        invariant
            -2 * COORD_LIMIT <= first <= 2 * COORD_LIMIT,
            -2 * COORD_LIMIT <= stop <= 2 * COORD_LIMIT,
            1 <= step <= COORD_LIMIT,
            v == first + r@.len() * step,
            first <= v <= 3 * COORD_LIMIT,
            forall|k: int| 0 <= k < r@.len() ==> #[trigger] r@[k] == first + k * step,
            forall|k: int| 0 <= k < r@.len() ==> #[trigger] r@[k] < stop,
        decreases stop as int + step as int - v as int,
    {
        let ghost n = r@.len();
        r.push(v);
        v = v + step as i64;
        proof {
            assert(v == first + r@.len() * step) by (nonlinear_arith)
                requires v == first + n * step + step, r@.len() == n + 1;
        }
    }
    r
}

/// Longitude of the first candidate meridian: the low longitude rounded toward zero to a step.
pub open spec fn first_meridian(b: BoundingBox, step: int) -> int {
    trunc_to_step(b.lon_min as int, step)
}

/// Longitude the meridians stay below.
pub open spec fn meridian_stop(b: BoundingBox) -> int {
    if b.all_lon { b.lon_max - EDGE_EPSILON_UAS } else { b.lon_max as int }
}

/// Latitude of the first candidate parallel; a first parallel on the south pole is skipped.
pub open spec fn first_parallel(b: BoundingBox, step: int) -> int {
    let a = trunc_to_step(b.lat_min as int, step);
    if a == -HALF_PI_UAS { a + step } else { a }
}

/// Latitude the parallels stay below, pulled back off the north pole.
pub open spec fn parallel_stop(b: BoundingBox) -> int {
    if b.lat_max == HALF_PI_UAS { b.lat_max - EDGE_EPSILON_UAS } else { b.lat_max as int }
}

/// Longitudes of the candidate meridians for a grid step.
pub fn meridian_positions(b: &BoundingBox, step: u64) -> (r: Vec<i64>)
    requires
        b.valid(),
        1 <= step <= COORD_LIMIT,
    ensures
        is_progression(r@, first_meridian(*b, step as int), meridian_stop(*b), step as int),
{
    let first = trunc_to_step_of(b.lon_min, step);
    let stop = if b.all_lon { b.lon_max - EDGE_EPSILON_UAS } else { b.lon_max };
    progression(first, stop, step)
}

/// Latitudes of the candidate parallels for a grid step.
pub fn parallel_positions(b: &BoundingBox, step: u64) -> (r: Vec<i64>)
    requires
        b.valid(),
        1 <= step <= COORD_LIMIT,
    ensures
        is_progression(r@, first_parallel(*b, step as int), parallel_stop(*b), step as int),
{
    let a = trunc_to_step_of(b.lat_min, step);
    let first = if a == -HALF_PI_UAS { a + step as i64 } else { a };
    let stop = if b.lat_max == HALF_PI_UAS { b.lat_max - EDGE_EPSILON_UAS } else { b.lat_max };
    progression(first, stop, step)
}

/// The spacing and positions of the candidate grid lines of a field of view.
#[derive(Clone, Debug)]
pub struct GridLayout {
    pub step_lon: u64,
    pub step_lat: u64,
    pub meridians: Vec<i64>,
    pub parallels: Vec<i64>,
}

/// Lays out the candidate grid lines of a bounding box: meridians aim at
/// `max_meridians` lines, parallels at `NUM_LINES_LATITUDES`.
pub fn grid_layout(b: &BoundingBox, max_meridians: usize) -> (g: GridLayout)
    requires
        b.valid(),
        max_meridians >= 1,
    ensures
        g.step_lon == selected_step((b.lon_max - b.lon_min) as nat, max_meridians as nat),
        g.step_lat == selected_step((b.lat_max - b.lat_min) as nat, NUM_LINES_LATITUDES as nat),
        is_progression(g.meridians@, first_meridian(*b, g.step_lon as int), meridian_stop(*b), g.step_lon as int),
        is_progression(g.parallels@, first_parallel(*b, g.step_lat as int), parallel_stop(*b), g.step_lat as int),
{
    let step_lon = select_grid_step(b.lon_size(), max_meridians);
    proof { lemma_selected_step_range((b.lon_max - b.lon_min) as nat, max_meridians as nat); }
    let meridians = meridian_positions(b, step_lon);
    let step_lat = select_grid_step(b.lat_size(), NUM_LINES_LATITUDES);
    proof { lemma_selected_step_range((b.lat_max - b.lat_min) as nat, NUM_LINES_LATITUDES as nat); }
    let parallels = parallel_positions(b, step_lat);
    GridLayout { step_lon, step_lat, meridians, parallels }
}

proof fn lemma_selected_step_range(fov: nat, max_lines: nat)
    ensures
        1 <= selected_step(fov, max_lines) <= 72_000_000_000,
{
    lemma_selected_index_range(fov, max_lines, 0);
}

proof fn lemma_selected_index_range(fov: nat, max_lines: nat, i: int)
    ensures
        0 <= selected_index_from(fov, max_lines, i) < NUM_GRID_STEPS,
    decreases NUM_GRID_STEPS - i,
{
    if 0 <= i < NUM_GRID_STEPS && !saturates(fov, max_lines, i) {
        lemma_selected_index_range(fov, max_lines, i + 1);
    }
}

/// The subdivision of the meridian at `lon` between two latitudes.
pub fn meridian_arc(lon: i64, lat_min: i64, lat_max: i64) -> (s: Subdivision)
    requires
        -COORD_LIMIT <= lon <= COORD_LIMIT,
        -HALF_PI_UAS <= lat_min <= lat_max <= HALF_PI_UAS,
    ensures
        s.wf(),
        s.pending_arcs() == seq![ArcSpan {
            start: LonLat { lon, lat: lat_min },
            mid: LonLat { lon, lat: mid_coord(lat_min as int, lat_max as int) as i64 },
            end: LonLat { lon, lat: lat_max },
            depth: LINE_SUBDIVISION_DEPTH,
            min_level: LINE_MIN_SUBDIVISION,
        }],
        s.emitted_segments() == Seq::<crate::subdivision::Segment>::empty(),
{
    let mid = mid_coord_of(lat_min, lat_max);
    Subdivision::new(
        LonLat { lon, lat: lat_min },
        LonLat { lon, lat: mid },
        LonLat { lon, lat: lat_max },
        LINE_SUBDIVISION_DEPTH,
        LINE_MIN_SUBDIVISION,
    )
}

/// The subdivision of the parallel at `lat` between two longitudes.
pub fn parallel_arc(lat: i64, lon_min: i64, lon_max: i64) -> (s: Subdivision)
    requires
        -HALF_PI_UAS <= lat <= HALF_PI_UAS,
        -COORD_LIMIT <= lon_min <= lon_max <= COORD_LIMIT,
    ensures
        s.wf(),
        s.pending_arcs() == seq![ArcSpan {
            start: LonLat { lon: lon_min, lat },
            mid: LonLat { lon: mid_coord(lon_min as int, lon_max as int) as i64, lat },
            end: LonLat { lon: lon_max, lat },
            depth: LINE_SUBDIVISION_DEPTH,
            min_level: LINE_MIN_SUBDIVISION,
        }],
        s.emitted_segments() == Seq::<crate::subdivision::Segment>::empty(),
{
    let mid = mid_coord_of(lon_min, lon_max);
    Subdivision::new(
        LonLat { lon: lon_min, lat },
        LonLat { lon: mid, lat },
        LonLat { lon: lon_max, lat },
        LINE_SUBDIVISION_DEPTH,
        LINE_MIN_SUBDIVISION,
    )
}

/// Margin, in pixels, between a label and the point of the line it names.
pub const LABEL_MARGIN_PX: u32 = 10;

/// Whether a label is pushed away from its anchor by half its width plus the
/// margin: not in an all-sky view, and for a parallel not when the view holds a pole.
pub fn label_is_shifted(is_parallel: bool, all_sky: bool, contains_pole: bool) -> (r: bool)
    ensures
        r == (!all_sky && !(is_parallel && contains_pole)),
{
    !all_sky && !(is_parallel && contains_pole)
}

/// Sum of the first `k` sizes.
pub open spec fn prefix_sum(sizes: Seq<usize>, k: int) -> int
    decreases k,
{
    if k <= 0 { 0 } else { prefix_sum(sizes, k - 1) + sizes[k - 1] }
}

/// Where each line's vertices start in one flat vertex buffer that holds the
/// lines one after the other, given how many vertices each line has.
pub fn vertex_offsets(sizes: &Vec<usize>) -> (offsets: Vec<usize>)
    requires
        prefix_sum(sizes@, sizes@.len() as int) <= usize::MAX,
    ensures
        offsets@.len() == sizes@.len(),
        forall|k: int| 0 <= k < sizes@.len() ==> #[trigger] offsets@[k] == prefix_sum(sizes@, k),
{
    let mut offsets: Vec<usize> = Vec::new();
    let mut next: usize = 0;
    let mut i: usize = 0;
    while i < sizes.len()
        invariant
            i <= sizes@.len(),
            offsets@.len() == i,
            next == prefix_sum(sizes@, i as int),
            prefix_sum(sizes@, sizes@.len() as int) <= usize::MAX,
            forall|k: int| 0 <= k < i ==> #[trigger] offsets@[k] == prefix_sum(sizes@, k),
        decreases sizes@.len() - i,
    {
        offsets.push(next);
        proof {
            lemma_prefix_sum_mono(sizes@, i as int + 1, sizes@.len() as int);
        }
        next = next + sizes[i];
        i = i + 1;
    }
    offsets
}

proof fn lemma_prefix_sum_mono(sizes: Seq<usize>, a: int, b: int)
    requires
        0 <= a <= b <= sizes.len(),
    ensures
        prefix_sum(sizes, a) <= prefix_sum(sizes, b),
    decreases b - a,
{
    if a < b {
        lemma_prefix_sum_mono(sizes, a, b - 1);
    }
}

} // verus!
