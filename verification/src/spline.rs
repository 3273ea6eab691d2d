use vstd::prelude::*;
use vstd::arithmetic::div_mod::{lemma_div_is_ordered, lemma_fundamental_div_mod};

verus! {

/// A point of a height spline: at noise sample `t`, in fixed point, the
/// terrain rises `height` above the base.
#[derive(Debug, Clone, Copy, PartialEq, Eq, Structural)]
pub struct ControlPoint {
    pub t: i32,
    pub height: u32,
}

/// A monotonic map from noise samples to terrain heights, linear between
/// its control points and constant before the first and after the last.
#[derive(Debug)]
pub struct HeightSpline {
    base_height: u32,
    control_points: Vec<ControlPoint>,
}

/// Whether there is a first point, samples rise strictly from point to
/// point, and heights never fall.
pub open spec fn points_ordered(points: Seq<ControlPoint>) -> bool {
    &&& points.len() >= 1
    &&& forall|i: int, j: int|
        0 <= i < j < points.len() ==> (#[trigger] points[i]).t < (#[trigger] points[j]).t
            && points[i].height <= points[j].height
}

/// The height on the line from `a` to `b` at sample `t`, rounded down.
pub open spec fn lerp(a: ControlPoint, b: ControlPoint, t: int) -> int {
    a.height + ((b.height - a.height) * (t - a.t)) / (b.t - a.t)
}

/// The height at sample `t`, looked for from the segment that starts at
/// point `i` onwards; `t` is not before that point.
pub open spec fn interpolate_from(points: Seq<ControlPoint>, t: int, i: int) -> int
    decreases points.len() - i,
{
    if i >= points.len() - 1 {
        points.last().height as int
    } else if t < points[i + 1].t {
        lerp(points[i], points[i + 1], t)
    } else {
        interpolate_from(points, t, i + 1)
    }
}

/// The terrain height a spline gives for sample `t`.
pub open spec fn spline_height(base: u32, points: Seq<ControlPoint>, t: int) -> int {
    if t <= points[0].t {
        base + points[0].height
    } else {
        base + interpolate_from(points, t, 0)
    }
}

proof fn lemma_lerp_bounds(a: ControlPoint, b: ControlPoint, t: int)
    requires
        a.t <= t <= b.t,
        a.t < b.t,
        a.height <= b.height,
    ensures
        a.height <= lerp(a, b, t) <= b.height,
        0 <= (b.height - a.height) * (t - a.t) <= (b.height - a.height) * (b.t - a.t),
{
    let dh = b.height - a.height;
    let dt = b.t - a.t;
    let s = t - a.t;
    assert(0 <= dh * s <= dh * dt) by (nonlinear_arith)
        requires
            0 <= dh,
            0 <= s <= dt,
    ;
    lemma_fundamental_div_mod(dh * s, dt);
    let q = (dh * s) / dt;
    assert(0 <= q <= dh) by (nonlinear_arith)
        requires
            dt > 0,
            0 <= dh * s <= dh * dt,
            dh * s == dt * q + (dh * s) % dt,
            0 <= (dh * s) % dt < dt,
            dh >= 0,
    {
        if q > dh {
            assert(dt * q >= dt * (dh + 1));
        }
        if q < 0 {
            assert(dt * q <= -dt);
        }
    }
}

proof fn lemma_lerp_monotonic(a: ControlPoint, b: ControlPoint, t1: int, t2: int)
    requires
        a.t <= t1 <= t2 <= b.t,
        a.t < b.t,
        a.height <= b.height,
    ensures
        lerp(a, b, t1) <= lerp(a, b, t2),
{
    let dh = b.height - a.height;
    assert(dh * (t1 - a.t) <= dh * (t2 - a.t)) by (nonlinear_arith)
        requires
            0 <= dh,
            t1 <= t2,
    ;
    lemma_div_is_ordered(dh * (t1 - a.t), dh * (t2 - a.t), b.t - a.t);
}

proof fn lemma_interpolate_bounds(points: Seq<ControlPoint>, t: int, i: int)
    requires
        points_ordered(points),
        0 <= i < points.len(),
        points[i].t <= t,
    ensures
        points[i].height <= interpolate_from(points, t, i) <= points.last().height,
    decreases points.len() - i,
{
    if i >= points.len() - 1 {
    } else if t < points[i + 1].t {
        lemma_lerp_bounds(points[i], points[i + 1], t);
        assert(points[i + 1].height <= points.last().height);
    } else {
        lemma_interpolate_bounds(points, t, i + 1);
    }
}

proof fn lemma_interpolate_monotonic(points: Seq<ControlPoint>, t1: int, t2: int, i: int)
    requires
        points_ordered(points),
        0 <= i < points.len(),
        points[i].t <= t1 <= t2,
    ensures
        interpolate_from(points, t1, i) <= interpolate_from(points, t2, i),
    decreases points.len() - i,
{
    if i >= points.len() - 1 {
    } else if t2 < points[i + 1].t {
        lemma_lerp_monotonic(points[i], points[i + 1], t1, t2);
    } else if t1 < points[i + 1].t {
        lemma_lerp_bounds(points[i], points[i + 1], t1);
        lemma_interpolate_bounds(points, t2, i + 1);
    } else {
        lemma_interpolate_monotonic(points, t1, t2, i + 1);
    }
}

/// A spline never falls: a larger sample gives a height that is at least as
/// large. Every height lies between the base plus the first and the base
/// plus the last control height.
pub proof fn lemma_spline_monotonic(base: u32, points: Seq<ControlPoint>, t1: int, t2: int)
    requires
        points_ordered(points),
        t1 <= t2,
    ensures
        spline_height(base, points, t1) <= spline_height(base, points, t2),
        base + points[0].height <= spline_height(base, points, t1) <= base + points.last().height,
{
    if points.len() > 1 {
        assert(points[0].height <= points.last().height);
    }
    if t1 > points[0].t {
        lemma_interpolate_monotonic(points, t1, t2, 0);
        lemma_interpolate_bounds(points, t1, 0);
    } else if t2 > points[0].t {
        lemma_interpolate_bounds(points, t2, 0);
    }
}

impl HeightSpline {
    pub closed spec fn base(&self) -> u32 {
        self.base_height
    }

    pub closed spec fn points(&self) -> Seq<ControlPoint> {
        self.control_points@
    }

    /// The control points are in order.
    pub open spec fn wf(&self) -> bool {
        points_ordered(self.points())
    }

    /// The terrain height this spline gives for a sample.
    pub open spec fn height(&self, sample: int) -> int {
        spline_height(self.base(), self.points(), sample)
    }

    /// A spline through the given points. There is none where the list is
    /// empty, samples do not rise strictly or a height falls.
    pub fn new(base_height: u32, control_points: Vec<ControlPoint>) -> (r: Option<Self>)
        ensures
            r.is_some() == points_ordered(control_points@),
            match r {
                Some(spline) => spline.wf() && spline.base() == base_height && spline.points()
                    == control_points@,
                None => true,
            },
    {
        if control_points.len() == 0 {
            return None;
        }
        let mut i: usize = 1;
        while i < control_points.len()
            invariant
                1 <= i <= control_points@.len(),
                forall|a: int, b: int|
                    0 <= a < b < i ==> (#[trigger] control_points@[a]).t < (#[trigger] control_points@[b]).t
                        && control_points@[a].height <= control_points@[b].height,
            decreases control_points@.len() - i,
        {
            let previous: ControlPoint = control_points[i - 1];
            let current: ControlPoint = control_points[i];
            if previous.t >= current.t || previous.height > current.height {
                assert(!(control_points@[i - 1].t < control_points@[i as int].t
                    && control_points@[i - 1].height <= control_points@[i as int].height));
                return None;
            }
            assert forall|a: int, b: int| 0 <= a < b < i + 1 implies (#[trigger] control_points@[a]).t
                < (#[trigger] control_points@[b]).t && control_points@[a].height
                <= control_points@[b].height by {
                if b == i && a < i - 1 {
                    assert(control_points@[a].t < control_points@[i - 1].t);
                }
            }
            i = i + 1;
        }
        Some(Self { base_height, control_points })
    }

    /// Maps a noise sample to a terrain height.
    pub fn height_at(&self, sample: i32) -> (r: u64)
        requires
            self.wf(),
        ensures
            r as int == self.height(sample as int),
            r <= 0x1_ffff_fffe,
    {
        let count: usize = self.control_points.len();
        let base: u64 = self.base_height as u64;
        if sample <= self.control_points[0].t {
            return base + self.control_points[0].height as u64;
        }
        let mut i: usize = 0;
        while i + 1 < count && self.control_points[i + 1].t <= sample
            invariant
                count == self.control_points@.len(),
                self.wf(),
                i < count,
                self.control_points@[i as int].t <= sample,
                interpolate_from(self.points(), sample as int, 0) == interpolate_from(
                    self.points(),
                    sample as int,
                    i as int,
                ),
            decreases count - i,
        {
            i = i + 1;
        }
        if i + 1 >= count {
            return base + self.control_points[count - 1].height as u64;
        }
        let a: ControlPoint = self.control_points[i];
        let b: ControlPoint = self.control_points[i + 1];
        proof {
            lemma_lerp_bounds(a, b, sample as int);
            assert((b.height - a.height) * (b.t - a.t) <= 0xffff_ffff * 0xffff_ffff) by (nonlinear_arith)
                requires
                    0 <= b.height - a.height <= 0xffff_ffff,
                    0 <= b.t - a.t <= 0xffff_ffff,
            ;
        }
        let rise: u64 = (b.height - a.height) as u64;
        let run: u64 = (b.t as i64 - a.t as i64) as u64;
        let step: u64 = (sample as i64 - a.t as i64) as u64;
        base + a.height as u64 + (rise * step) / run
    }
}

} // verus!
