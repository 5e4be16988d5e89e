//! Adaptive subdivision of a grid line into chords. The projection lives
//! with the caller: for each arc it reports which control points project and
//! how the two chords turn; the decisions are made here.

use vstd::prelude::*;

verus! {

/// Largest absolute longitude or latitude a control point may hold (four full turns).
pub const COORD_LIMIT: i64 = 5_184_000_000_000;

/// Turn angle between two consecutive chords below which a polyline is
/// considered smooth enough (5 degrees).
pub const MAX_TURN_UAS: u64 = 18_000_000_000;

/// A point on the sphere given by its longitude and latitude, in microarcseconds.
#[derive(Clone, Copy, Debug, PartialEq, Eq, Structural)]
pub struct LonLat {
    pub lon: i64,
    pub lat: i64,
}

/// A chord of a grid line, from one point of the sphere to another.
#[derive(Clone, Copy, Debug, PartialEq, Eq, Structural)]
pub struct Segment {
    pub from: LonLat,
    pub to: LonLat,
}

/// A piece of a grid line still to be drawn: three control points, the
/// remaining subdivision budget and the number of subdivisions still forced.
#[derive(Clone, Copy, Debug, PartialEq, Eq, Structural)]
pub struct ArcSpan {
    pub start: LonLat,
    pub mid: LonLat,
    pub end: LonLat,
    pub depth: usize,
    pub min_level: u32,
}

/// What the projection made of the three control points of an arc: which of
/// them project, and, when all three do, the turn angle between the two
/// chords (in microarcseconds) and their squared screen lengths.
#[derive(Clone, Copy, Debug)]
pub struct ArcView {
    pub start_visible: bool,
    pub mid_visible: bool,
    pub end_visible: bool,
    pub turn: u64,
    pub first_len2: u64,
    pub second_len2: u64,
}

pub open spec fn point_ok(p: LonLat) -> bool {
    -COORD_LIMIT <= p.lon <= COORD_LIMIT && -COORD_LIMIT <= p.lat <= COORD_LIMIT
}

pub open spec fn arc_ok(a: ArcSpan) -> bool {
    point_ok(a.start) && point_ok(a.mid) && point_ok(a.end)
}

/// Midpoint of two coordinates, rounded down.
pub open spec fn mid_coord(a: int, b: int) -> int {
    (a + b) / 2
}

pub open spec fn midpoint(p: LonLat, q: LonLat) -> LonLat {
    LonLat { lon: mid_coord(p.lon as int, q.lon as int) as i64, lat: mid_coord(p.lat as int, q.lat as int) as i64 }
}

pub open spec fn next_min_level(m: u32) -> u32 {
    if m > 0 { (m - 1) as u32 } else { 0 }
}

/// The arc from the start to the middle control point.
pub open spec fn first_half(a: ArcSpan) -> ArcSpan {
    ArcSpan {
        start: a.start,
        mid: midpoint(a.start, a.mid),
        end: a.mid,
        depth: (a.depth - 1) as usize,
        min_level: next_min_level(a.min_level),
    }
}

/// The arc from the middle to the end control point.
pub open spec fn second_half(a: ArcSpan) -> ArcSpan {
    ArcSpan {
        start: a.mid,
        mid: midpoint(a.mid, a.end),
        end: a.end,
        depth: (a.depth - 1) as usize,
        min_level: next_min_level(a.min_level),
    }
}

pub open spec fn seg(p: LonLat, q: LonLat) -> Segment {
    Segment { from: p, to: q }
}

pub open spec fn all_visible(v: ArcView) -> bool {
    v.start_visible && v.mid_visible && v.end_visible
}

/// The two chords are smooth and no forced subdivision is left.
pub open spec fn is_final(a: ArcSpan, v: ArcView) -> bool {
    v.turn < MAX_TURN_UAS && a.min_level == 0
}

/// One chord is under a tenth of the other (in squared length).
pub open spec fn lopsided(v: ArcView) -> bool {
    if v.first_len2 <= v.second_len2 {
        10 * v.first_len2 < v.second_len2
    } else {
        10 * v.second_len2 < v.first_len2
    }
}

/// The chords emitted when an arc is examined: both chords once they are
/// smooth; when the budget is spent, the best approximation left, which is
/// both chords, less a chord under a tenth of the other.
pub open spec fn emitted(a: ArcSpan, v: ArcView) -> Seq<Segment> {
    if !all_visible(v) {
        seq![]
    } else if is_final(a, v) {
        seq![seg(a.start, a.mid), seg(a.mid, a.end)]
    } else if a.depth == 0 {
        if !lopsided(v) {
            seq![seg(a.start, a.mid), seg(a.mid, a.end)]
        } else if v.first_len2 <= v.second_len2 {
            seq![seg(a.mid, a.end)]
        } else {
            seq![seg(a.start, a.mid)]
        }
    } else {
        seq![]
    }
}

/// The halves of an arc left to examine after it, in the order they are examined.
pub open spec fn children(a: ArcSpan, v: ArcView) -> Seq<ArcSpan> {
    if a.depth == 0 {
        seq![]
    } else if all_visible(v) {
        if is_final(a, v) { seq![] } else { seq![first_half(a), second_half(a)] }
    } else if !v.start_visible && !v.mid_visible && !v.end_visible {
        seq![]
    } else if v.start_visible && !v.mid_visible && !v.end_visible {
        seq![first_half(a)]
    } else if !v.start_visible && !v.mid_visible && v.end_visible {
        seq![second_half(a)]
    } else {
        seq![first_half(a), second_half(a)]
    }
}

/// Pushes arcs on a stack so that the first of them ends on top.
pub open spec fn push_all(stack: Seq<ArcSpan>, arcs: Seq<ArcSpan>) -> Seq<ArcSpan>
    decreases arcs.len(),
{
    if arcs.len() == 0 {
        stack
    } else {
        push_all(stack, arcs.drop_first()).push(arcs[0])
    }
}

proof fn lemma_push_small(stack: Seq<ArcSpan>, x: ArcSpan, y: ArcSpan)
    ensures
        push_all(stack, seq![]) == stack,
        push_all(stack, seq![x]) == stack.push(x),
        push_all(stack, seq![x, y]) == stack.push(y).push(x),
{
    let e = Seq::<ArcSpan>::empty();
    assert(push_all(stack, e) == stack);
    assert(seq![x].drop_first() =~= e);
    assert(seq![y].drop_first() =~= e);
    assert(seq![x, y].drop_first() =~= seq![y]);
    assert(push_all(stack, seq![y]) == push_all(stack, e).push(y));
    assert(push_all(stack, seq![x]) == push_all(stack, e).push(x));
}

/// The stack of pending arcs after its top arc has been examined.
pub open spec fn pending_after(pending: Seq<ArcSpan>, v: ArcView) -> Seq<ArcSpan> {
    push_all(pending.drop_last(), children(pending.last(), v))
}

/// The chords emitted so far after the top arc has been examined.
pub open spec fn segments_after(pending: Seq<ArcSpan>, segments: Seq<Segment>, v: ArcView) -> Seq<Segment> {
    segments + emitted(pending.last(), v)
}

/// The state reached from `(pending, segments)` by examining the pending arcs
/// with the given views, one view per arc, until none is left.
pub open spec fn run(pending: Seq<ArcSpan>, segments: Seq<Segment>, views: Seq<ArcView>) -> (Seq<ArcSpan>, Seq<Segment>)
    decreases views.len(),
{
    if views.len() == 0 || pending.len() == 0 {
        (pending, segments)
    } else {
        run(pending_after(pending, views[0]), segments_after(pending, segments, views[0]), views.drop_first())
    }
}

/// Adaptive subdivision of one grid line into chords. The caller repeatedly
/// projects the control points of `next_arc` and hands what it saw to `examine`.
pub struct Subdivision {
    pending: Vec<ArcSpan>,
    segments: Vec<Segment>,
}

impl Subdivision {
    pub closed spec fn pending_arcs(&self) -> Seq<ArcSpan> {
        self.pending@
    }

    pub closed spec fn emitted_segments(&self) -> Seq<Segment> {
        self.segments@
    }

    pub closed spec fn wf(&self) -> bool {
        forall|i: int| 0 <= i < self.pending@.len() ==> #[trigger] arc_ok(self.pending@[i])
    }

    /// Starts the subdivision of the arc through `start`, `mid` and `end`, with
    /// a budget of `depth` levels, the first `min_level` of them forced.
    pub fn new(start: LonLat, mid: LonLat, end: LonLat, depth: usize, min_level: u32) -> (s: Self)
        requires
            point_ok(start),
            point_ok(mid),
            point_ok(end),
        ensures
            s.wf(),
            s.pending_arcs() == seq![ArcSpan { start, mid, end, depth, min_level }],
            s.emitted_segments() == Seq::<Segment>::empty(),
    {
        let mut pending: Vec<ArcSpan> = Vec::new();
        pending.push(ArcSpan { start, mid, end, depth, min_level });
        Subdivision { pending, segments: Vec::new() }
    }

    /// The arc to examine next, if any is left.
    pub fn next_arc(&self) -> (r: Option<ArcSpan>)
        ensures
            self.pending_arcs().len() == 0 <==> r.is_none(),
            r.is_some() ==> r.unwrap() == self.pending_arcs().last(),
    {
        if self.pending.len() == 0 {
            None
        } else {
            Some(self.pending[self.pending.len() - 1])
        }
    }

    pub fn is_done(&self) -> (r: bool)
        ensures
            r == (self.pending_arcs().len() == 0),
    {
        self.pending.len() == 0
    }

    /// The chords emitted so far.
    pub fn segments(&self) -> (r: &Vec<Segment>)
        ensures
            r@ == self.emitted_segments(),
    {
        &self.segments
    }

    /// Examines the arc on top of the stack, given how its control points project.
    pub fn examine(&mut self, v: ArcView)
        requires
            old(self).wf(),
            old(self).pending_arcs().len() > 0,
        ensures
            final(self).wf(),
            final(self).pending_arcs() == pending_after(old(self).pending_arcs(), v),
            final(self).emitted_segments() == segments_after(old(self).pending_arcs(), old(self).emitted_segments(), v),
    {
        let a = self.pending.pop().unwrap();
        proof {
            assert(arc_ok(old(self).pending@[old(self).pending@.len() - 1]));
            assert(self.pending@ == old(self).pending@.drop_last());
        }
        let all = v.start_visible && v.mid_visible && v.end_visible;
        let fin = v.turn < MAX_TURN_UAS && a.min_level == 0;
        if all {
            if fin {
                self.segments.push(Segment { from: a.start, to: a.mid });
                self.segments.push(Segment { from: a.mid, to: a.end });
            } else if a.depth > 0 {
                self.push_halves(&a, true, true);
            } else {
                let lop = if v.first_len2 <= v.second_len2 {
                    (v.first_len2 as u128) * 10 < v.second_len2 as u128
                } else {
                    (v.second_len2 as u128) * 10 < v.first_len2 as u128
                };
                if !lop {
                    self.segments.push(Segment { from: a.start, to: a.mid });
                    self.segments.push(Segment { from: a.mid, to: a.end });
                } else if v.first_len2 <= v.second_len2 {
                    self.segments.push(Segment { from: a.mid, to: a.end });
                } else {
                    self.segments.push(Segment { from: a.start, to: a.mid });
                }
            }
        } else if a.depth > 0 {
            if !v.start_visible && !v.mid_visible && !v.end_visible {
            } else if v.start_visible && !v.mid_visible && !v.end_visible {
                self.push_halves(&a, true, false);
            } else if !v.start_visible && !v.mid_visible && v.end_visible {
                self.push_halves(&a, false, true);
            } else {
                self.push_halves(&a, true, true);
            }
        }
        proof {
            assert(self.segments@ =~= segments_after(old(self).pending@, old(self).segments@, v));
            lemma_push_small(old(self).pending@.drop_last(), first_half(a), second_half(a));
            lemma_push_small(old(self).pending@.drop_last(), second_half(a), first_half(a));
            assert(self.pending@ =~= pending_after(old(self).pending@, v));
        }
    }

    /// Pushes the wanted halves of `a`, the second below the first.
    fn push_halves(&mut self, a: &ArcSpan, first: bool, second: bool)
        requires
            old(self).wf(),
            arc_ok(*a),
            a.depth > 0,
            first || second,
        ensures
            final(self).wf(),
            final(self).segments@ == old(self).segments@,
            first && second ==> final(self).pending@ == old(self).pending@.push(second_half(*a)).push(first_half(*a)),
            first && !second ==> final(self).pending@ == old(self).pending@.push(first_half(*a)),
            !first && second ==> final(self).pending@ == old(self).pending@.push(second_half(*a)),
    {
        let level = if a.min_level > 0 { a.min_level - 1 } else { 0 };
        if second {
            let m = midpoint_of(&a.mid, &a.end);
            self.pending.push(ArcSpan { start: a.mid, mid: m, end: a.end, depth: a.depth - 1, min_level: level });
        }
        if first {
            let m = midpoint_of(&a.start, &a.mid);
            self.pending.push(ArcSpan { start: a.start, mid: m, end: a.mid, depth: a.depth - 1, min_level: level });
        }
        proof {
            assert forall|i: int| 0 <= i < self.pending@.len() implies #[trigger] arc_ok(self.pending@[i]) by {
                if i < old(self).pending@.len() {
                    assert(arc_ok(old(self).pending@[i]));
                }
            }
        }
    }
}

/// Midpoint of two coordinates, rounded down.
pub(crate) fn mid_coord_of(a: i64, b: i64) -> (r: i64)
    requires
        -COORD_LIMIT <= a <= COORD_LIMIT,
        -COORD_LIMIT <= b <= COORD_LIMIT,
    ensures
        r == mid_coord(a as int, b as int),
        a <= b ==> a <= r <= b,
        b <= a ==> b <= r <= a,
{
    let s: i64 = a + b;
    if s >= 0 {
        s / 2
    } else {
        -((1 - s) / 2)
    }
}

fn midpoint_of(p: &LonLat, q: &LonLat) -> (r: LonLat)
    requires
        point_ok(*p),
        point_ok(*q),
    ensures
        r == midpoint(*p, *q),
        point_ok(r),
{
    LonLat { lon: mid_coord_of(p.lon, q.lon), lat: mid_coord_of(p.lat, q.lat) }
}

/// Two to the power `n`.
pub open spec fn pow2(n: nat) -> nat
    decreases n,
{
    if n == 0 { 1 } else { 2 * pow2((n - 1) as nat) }
}

/// Number of chords that the pending arcs may still emit at most.
pub open spec fn weight(p: Seq<ArcSpan>) -> nat
    decreases p.len(),
{
    if p.len() == 0 { 0 } else { weight(p.drop_last()) + pow2(p.last().depth as nat + 1) }
}

pub(crate) proof fn lemma_pow2_pos(n: nat)
    ensures
        pow2(n) >= 1,
    decreases n,
{
    if n > 0 {
        lemma_pow2_pos((n - 1) as nat);
    }
}

proof fn lemma_weight_push(p: Seq<ArcSpan>, x: ArcSpan)
    ensures
        weight(p.push(x)) == weight(p) + pow2(x.depth as nat + 1),
{
    assert(p.push(x).drop_last() =~= p);
}

proof fn lemma_examine_weight(p: Seq<ArcSpan>, v: ArcView)
    requires
        p.len() > 0,
    ensures
        weight(pending_after(p, v)) + emitted(p.last(), v).len() <= weight(p),
{
    let a = p.last();
    let p0 = p.drop_last();
    assert(p0.push(a) =~= p);
    lemma_weight_push(p0, a);
    assert(weight(p) == weight(p0) + pow2(a.depth as nat + 1));
    lemma_pow2_pos(a.depth as nat);
    assert(pow2(a.depth as nat + 1) == 2 * pow2(a.depth as nat));
    assert(emitted(a, v).len() <= 2);
    lemma_push_small(p0, first_half(a), second_half(a));
    lemma_push_small(p0, second_half(a), first_half(a));
    if a.depth > 0 {
        let d = (a.depth - 1) as nat;
        assert(pow2(d + 1) == 2 * pow2(d));
        lemma_weight_push(p0, first_half(a));
        lemma_weight_push(p0, second_half(a));
        lemma_weight_push(p0.push(second_half(a)), first_half(a));
    } else {
        assert(pow2(1) == 2 * pow2(0));
    }
}

proof fn lemma_run_weight(p: Seq<ArcSpan>, segs: Seq<Segment>, views: Seq<ArcView>)
    ensures
        run(p, segs, views).1.len() + weight(run(p, segs, views).0) <= segs.len() + weight(p),
    decreases views.len(),
{
    if views.len() > 0 && p.len() > 0 {
        lemma_examine_weight(p, views[0]);
        lemma_run_weight(pending_after(p, views[0]), segments_after(p, segs, views[0]), views.drop_first());
    }
}

/// However the projection turns out, subdividing an arc with a budget of
/// `depth` levels emits at most `2^(depth + 1)` chords.
pub proof fn lemma_subdivision_bounded(a: ArcSpan, views: Seq<ArcView>)
    ensures
        run(seq![a], Seq::<Segment>::empty(), views).1.len() <= pow2(a.depth as nat + 1),
{
    assert(seq![a].drop_last() =~= Seq::<ArcSpan>::empty());
    assert(weight(seq![a]) == weight(Seq::<ArcSpan>::empty()) + pow2(a.depth as nat + 1));
    lemma_run_weight(seq![a], Seq::<Segment>::empty(), views);
}

/// The chords of the pending arcs, from the top of the stack down.
pub open spec fn chords(p: Seq<ArcSpan>) -> Seq<Segment>
    decreases p.len(),
{
    if p.len() == 0 { seq![] } else { seq![seg(p.last().start, p.last().end)] + chords(p.drop_last()) }
}

/// Consecutive chords share an endpoint, the first leaves `from` and the last reaches `to`.
pub open spec fn path_ok(s: Seq<Segment>, from: LonLat, to: LonLat) -> bool {
    &&& s.len() > 0
    &&& s[0].from == from
    &&& s.last().to == to
    &&& forall|k: int| 0 <= k < s.len() - 1 ==> #[trigger] s[k].to == s[k + 1].from
}

/// Every control point projects, and the arc is split or drawn with both
/// chords (no chord is dropped as too short).
pub open spec fn resolves(a: ArcSpan, v: ArcView) -> bool {
    all_visible(v) && (a.depth > 0 || is_final(a, v) || !lopsided(v))
}

/// Each arc examined in the run resolves.
pub open spec fn run_resolves(p: Seq<ArcSpan>, views: Seq<ArcView>) -> bool
    decreases views.len(),
{
    if views.len() == 0 || p.len() == 0 {
        true
    } else {
        resolves(p.last(), views[0]) && run_resolves(pending_after(p, views[0]), views.drop_first())
    }
}

proof fn lemma_splice(s: Seq<Segment>, c: Seq<Segment>, a: LonLat, m: LonLat, b: LonLat, from: LonLat, to: LonLat)
    requires
        path_ok(s + seq![seg(a, b)] + c, from, to),
    ensures
        path_ok(s + seq![seg(a, m), seg(m, b)] + c, from, to),
{
    let o = s + seq![seg(a, b)] + c;
    let n = s + seq![seg(a, m), seg(m, b)] + c;
    let l = s.len() as int;
    assert(n.len() == o.len() + 1);
    assert forall|k: int| 0 <= k < n.len() - 1 implies #[trigger] n[k].to == n[k + 1].from by {
        if k < l - 1 {
            assert(n[k] == o[k] && n[k + 1] == o[k + 1]);
        } else if k == l - 1 {
            assert(n[k] == o[k] && o[k].to == o[k + 1].from);
        } else if k == l {
        } else if k == l + 1 {
            assert(o[l].to == o[l + 1].from);
            assert(n[k + 1] == o[l + 1]);
        } else {
            assert(n[k] == o[k - 1] && n[k + 1] == o[k]);
            assert(o[k - 1].to == o[k].from);
        }
    }
    if l == 0 {
        assert(n[0] == seg(a, m));
    } else {
        assert(n[0] == o[0]);
    }
    if c.len() == 0 {
        assert(n.last() == seg(m, b));
    } else {
        assert(n.last() == o.last());
    }
}

proof fn lemma_examine_path(p: Seq<ArcSpan>, segs: Seq<Segment>, v: ArcView, from: LonLat, to: LonLat)
    requires
        p.len() > 0,
        resolves(p.last(), v),
        path_ok(segs + chords(p), from, to),
    ensures
        path_ok(segments_after(p, segs, v) + chords(pending_after(p, v)), from, to),
{
    let a = p.last();
    let p0 = p.drop_last();
    let c = chords(p0);
    lemma_push_small(p0, first_half(a), second_half(a));
    assert(segs + chords(p) =~= segs + seq![seg(a.start, a.end)] + c);
    lemma_splice(segs, c, a.start, a.mid, a.end, from, to);
    let n = segs + seq![seg(a.start, a.mid), seg(a.mid, a.end)] + c;
    if is_final(a, v) || a.depth == 0 {
        assert(segments_after(p, segs, v) + chords(pending_after(p, v)) =~= n);
    } else {
        let q1 = p0.push(second_half(a));
        let q2 = q1.push(first_half(a));
        assert(q2.drop_last() =~= q1);
        assert(q1.drop_last() =~= p0);
        assert(chords(q1) == seq![seg(a.mid, a.end)] + c);
        assert(chords(q2) == seq![seg(a.start, a.mid)] + chords(q1));
        assert(chords(q2) =~= seq![seg(a.start, a.mid), seg(a.mid, a.end)] + c);
        assert(segments_after(p, segs, v) + chords(pending_after(p, v)) =~= n);
    }
}

proof fn lemma_run_path(p: Seq<ArcSpan>, segs: Seq<Segment>, views: Seq<ArcView>, from: LonLat, to: LonLat)
    requires
        run_resolves(p, views),
        path_ok(segs + chords(p), from, to),
    ensures
        path_ok(run(p, segs, views).1 + chords(run(p, segs, views).0), from, to),
    decreases views.len(),
{
    if views.len() > 0 && p.len() > 0 {
        lemma_examine_path(p, segs, views[0], from, to);
        lemma_run_path(pending_after(p, views[0]), segments_after(p, segs, views[0]), views.drop_first(), from, to);
    }
}

/// When every control point projects and no chord is dropped as too short,
/// the chords of a finished subdivision form an unbroken path from
/// the start of the arc to its end.
pub proof fn lemma_subdivision_connected(a: ArcSpan, views: Seq<ArcView>)
    requires
        run_resolves(seq![a], views),
        run(seq![a], Seq::<Segment>::empty(), views).0.len() == 0,
    ensures
        path_ok(run(seq![a], Seq::<Segment>::empty(), views).1, a.start, a.end),
{
    let e = Seq::<Segment>::empty();
    assert(seq![a].drop_last() =~= Seq::<ArcSpan>::empty());
    assert(chords(Seq::<ArcSpan>::empty()) == Seq::<Segment>::empty());
    assert(chords(seq![a]) == seq![seg(a.start, a.end)] + chords(Seq::<ArcSpan>::empty()));
    assert(e + chords(seq![a]) =~= seq![seg(a.start, a.end)]);
    lemma_run_path(seq![a], e, views, a.start, a.end);
    let r = run(seq![a], e, views);
    assert(r.1 + chords(r.0) =~= r.1);
}

/// Number of examinations the pending arcs may still take at most.
pub open spec fn steps_left(p: Seq<ArcSpan>) -> nat
    decreases p.len(),
{
    if p.len() == 0 { 0 } else { steps_left(p.drop_last()) + (pow2(p.last().depth as nat + 1) - 1) as nat }
}

proof fn lemma_steps_left_push(p: Seq<ArcSpan>, x: ArcSpan)
    ensures
        steps_left(p.push(x)) == steps_left(p) + (pow2(x.depth as nat + 1) - 1) as nat,
{
    assert(p.push(x).drop_last() =~= p);
}

proof fn lemma_examine_steps(p: Seq<ArcSpan>, v: ArcView)
    requires
        p.len() > 0,
    ensures
        steps_left(pending_after(p, v)) + 1 <= steps_left(p),
{
    let a = p.last();
    let p0 = p.drop_last();
    assert(p0.push(a) =~= p);
    lemma_steps_left_push(p0, a);
    lemma_pow2_pos(a.depth as nat);
    assert(pow2(a.depth as nat + 1) == 2 * pow2(a.depth as nat));
    lemma_push_small(p0, first_half(a), second_half(a));
    lemma_push_small(p0, second_half(a), first_half(a));
    if a.depth > 0 {
        let d = (a.depth - 1) as nat;
        lemma_pow2_pos(d);
        assert(pow2(d + 1) == 2 * pow2(d));
        lemma_steps_left_push(p0, first_half(a));
        lemma_steps_left_push(p0, second_half(a));
        lemma_steps_left_push(p0.push(second_half(a)), first_half(a));
    }
}

proof fn lemma_run_finishes(p: Seq<ArcSpan>, segs: Seq<Segment>, views: Seq<ArcView>)
    requires
        views.len() >= steps_left(p),
    ensures
        run(p, segs, views).0.len() == 0,
    decreases views.len(),
{
    if p.len() > 0 {
        let p0 = p.drop_last();
        assert(p0.push(p.last()) =~= p);
        lemma_steps_left_push(p0, p.last());
        lemma_pow2_pos(p.last().depth as nat);
        assert(pow2(p.last().depth as nat + 1) == 2 * pow2(p.last().depth as nat));
        lemma_examine_steps(p, views[0]);
        lemma_run_finishes(pending_after(p, views[0]), segments_after(p, segs, views[0]), views.drop_first());
    }
}

/// Subdividing an arc with a budget of `depth` levels ends after at most
/// `2^(depth + 1) - 1` examinations, however the projection turns out.
pub proof fn lemma_subdivision_terminates(a: ArcSpan, views: Seq<ArcView>)
    requires
        views.len() >= pow2(a.depth as nat + 1) - 1,
    ensures
        run(seq![a], Seq::<Segment>::empty(), views).0.len() == 0,
{
    assert(seq![a].drop_last() =~= Seq::<ArcSpan>::empty());
    assert(steps_left(seq![a]) == steps_left(Seq::<ArcSpan>::empty()) + (pow2(a.depth as nat + 1) - 1) as nat);
    lemma_pow2_pos(a.depth as nat + 1);
    lemma_run_finishes(seq![a], Seq::<Segment>::empty(), views);
}

} // verus!
