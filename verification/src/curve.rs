//! Fan curves: points in hundredths of a degree and hundredths of a percent,
//! evaluated by linear interpolation between neighbouring points.
use vstd::prelude::*;

verus! {

/// `a / b` rounded to the nearest integer, halves away from zero (`b > 0`).
pub open spec fn round_div(a: int, b: int) -> int
    recommends
        b > 0,
{
    if a >= 0 {
        (2 * a + b) / (2 * b)
    } else {
        -((-2 * a + b) / (2 * b))
    }
}

/// A point of a fan curve.
#[derive(Clone, Copy, Debug, PartialEq, Eq)]
pub struct FanPoint {
    /// Temperature in hundredths of a degree, 10000 = 100C.
    pub temp: i16,
    /// Duty in hundredths of a percent, 10000 = 100%.
    pub duty: u16,
}

impl FanPoint {
    /// The duty that linear interpolation gives at `temp` between `self` and `next`.
    pub open spec fn interpolated(self, next: FanPoint, temp: int) -> int {
        self.duty + round_div((next.duty - self.duty) * (temp - self.temp), next.temp - self.temp)
    }

    /// The duty of the segment from `self` to `next` at `temp`, if `temp` lies on it.
    pub open spec fn duty_between(self, next: FanPoint, temp: int) -> Option<u16> {
        if temp == next.temp {
            Some(next.duty)
        } else if temp == self.temp {
            Some(self.duty)
        } else if self.temp < temp && temp < next.temp {
            Some(self.interpolated(next, temp) as u16)
        } else {
            None
        }
    }

    pub fn new(temp: i16, duty: u16) -> (p: Self)
        ensures
            p.temp == temp,
            p.duty == duty,
    {
        FanPoint { temp, duty }
    }

    /// Find the duty between two points and a given temperature, if the
    /// temperature lies within this range.
    pub fn get_duty_between_points(self, next: Self, temp: i16) -> (r: Option<u16>)
        ensures
            r == self.duty_between(next, temp as int),
    {
        if temp == next.temp {
            return Some(next.duty);
        }
        if temp == self.temp {
            return Some(self.duty);
        }
        if self.temp < temp && next.temp > temp {
            return Some(self.interpolate_duties(next, temp));
        }
        None
    }

    /// Interpolates the duty at `temp`, strictly between `self` and `next`.
    /// The result lies between the two duties, whichever way the curve slopes.
    pub fn interpolate_duties(self, next: Self, temp: i16) -> (d: u16)
        requires
            self.temp < temp < next.temp,
        ensures
            d == self.interpolated(next, temp as int),
            self.duty <= next.duty ==> self.duty <= d <= next.duty,
            next.duty <= self.duty ==> next.duty <= d <= self.duty,
    {
        let dtemp: i64 = next.temp as i64 - self.temp as i64;
        let dduty: i64 = next.duty as i64 - self.duty as i64;
        let off: i64 = temp as i64 - self.temp as i64;
        proof {
            lemma_mul_bounds(dduty as int, off as int);
        }
        let prod: i64 = dduty * off;
        assert(-4294967296 <= prod <= 4294967296);
        let q: i64 = if prod >= 0 {
            (2 * prod + dtemp) / (2 * dtemp)
        } else {
            -((-2 * prod + dtemp) / (2 * dtemp))
        };
        proof {
            lemma_round_div_between(dduty as int, off as int, dtemp as int);
        }
        (self.duty as i64 + q) as u16
    }
}

proof fn lemma_mul_bounds(a: int, b: int)
    requires
        -65536 <= a <= 65536,
        0 <= b <= 65536,
    ensures
        -4294967296 <= a * b <= 4294967296,
{
    assert(-4294967296 <= a * b <= 4294967296) by (nonlinear_arith)
        requires
            -65536 <= a <= 65536,
            0 <= b <= 65536,
    ;
}

/// Rounding `dd * off / dt` stays between 0 and `dd` when `0 < off < dt`.
pub proof fn lemma_round_div_between(dd: int, off: int, dt: int)
    requires
        0 < off < dt,
    ensures
        dd >= 0 ==> 0 <= round_div(dd * off, dt) <= dd,
        dd <= 0 ==> dd <= round_div(dd * off, dt) <= 0,
{
    if dd >= 0 {
        let a = dd * off;
        assert(0 <= a <= dd * dt) by (nonlinear_arith)
            requires
                dd >= 0,
                0 < off < dt,
                a == dd * off,
        ;
        assert(0 <= (2 * a + dt) / (2 * dt) <= dd) by (nonlinear_arith)
            requires
                0 <= a <= dd * dt,
                dt > 0,
                dd >= 0,
        ;
    } else {
        let a = -dd * off;
        assert(0 <= a <= -dd * dt) by (nonlinear_arith)
            requires
                dd < 0,
                0 < off < dt,
                a == -dd * off,
        ;
        assert(-2 * (dd * off) == 2 * a && dd * off < 0) by (nonlinear_arith)
            requires
                a == -dd * off,
                dd < 0,
                off > 0,
        ;
        assert(0 <= (2 * a + dt) / (2 * dt) <= -dd) by (nonlinear_arith)
            requires
                0 <= a <= -dd * dt,
                dt > 0,
        ;
    }
}

/// A fan curve: points in the order they were appended.
#[derive(Debug, PartialEq, Eq)]
pub struct FanCurve {
    points: Vec<FanPoint>,
}

impl Clone for FanCurve {
    fn clone(&self) -> (c: Self)
        ensures
            c@ == self@,
    {
        let mut points: Vec<FanPoint> = Vec::new();
        let mut i: usize = 0;
        while i < self.points.len()
            invariant
                i <= self.points@.len(),
                points@ == self.points@.subrange(0, i as int),
            decreases self.points@.len() - i,
        {
            points.push(self.points[i]);
            i = i + 1;
            assert(points@ =~= self.points@.subrange(0, i as int));
        }
        assert(points@ =~= self.points@);
        FanCurve { points }
    }
}

impl View for FanCurve {
    type V = Seq<FanPoint>;

    closed spec fn view(&self) -> Seq<FanPoint> {
        self.points@
    }
}

/// The duty of the first segment, from index `i` on, that `temp` lies on.
pub open spec fn window_duty(points: Seq<FanPoint>, temp: int, i: int) -> Option<u16>
    decreases points.len() - i,
{
    if i < 0 || i + 1 >= points.len() {
        None
    } else {
        match points[i].duty_between(points[i + 1], temp) {
            Some(d) => Some(d),
            None => window_duty(points, temp, i + 1),
        }
    }
}

/// What a curve gives at `temp`: 0 below the first point, the first segment
/// that holds `temp`, the last duty at or above the last point; only a curve
/// with no points gives nothing.
pub open spec fn curve_duty(points: Seq<FanPoint>, temp: int) -> Option<u16> {
    if points.len() > 0 && temp < points[0].temp {
        Some(0)
    } else {
        match window_duty(points, temp, 0) {
            Some(d) => Some(d),
            None => if points.len() > 0 && temp >= points.last().temp {
                Some(points.last().duty)
            } else {
                None
            },
        }
    }
}

/// Temperatures strictly increase and duties never decrease along the curve.
pub open spec fn is_monotonic(points: Seq<FanPoint>) -> bool {
    forall|i: int, j: int|
        0 <= i < j < points.len() ==> #[trigger] points[i].temp < #[trigger] points[j].temp
            && points[i].duty <= points[j].duty
}

/// The points of the standard curve.
pub open spec fn standard_points() -> Seq<FanPoint> {
    seq![
        FanPoint { temp: 3999, duty: 0 },
        FanPoint { temp: 4000, duty: 1500 },
        FanPoint { temp: 4500, duty: 3000 },
        FanPoint { temp: 5000, duty: 4000 },
        FanPoint { temp: 5500, duty: 5500 },
        FanPoint { temp: 6000, duty: 7000 },
        FanPoint { temp: 6500, duty: 8500 },
        FanPoint { temp: 7000, duty: 10000 },
    ]
}

impl Default for FanCurve {
    fn default() -> (c: Self)
        ensures
            c@ == Seq::<FanPoint>::empty(),
    {
        FanCurve { points: Vec::new() }
    }
}

impl FanCurve {
    /// A curve with no points.
    pub fn empty() -> (c: Self)
        ensures
            c@ == Seq::<FanPoint>::empty(),
    {
        FanCurve { points: Vec::new() }
    }

    /// Adds a point to the fan curve.
    pub fn append(self, temp: i16, duty: u16) -> (c: Self)
        ensures
            c@ == self@.push(FanPoint { temp, duty }),
    {
        let mut points = self.points;
        points.push(FanPoint::new(temp, duty));
        FanCurve { points }
    }

    /// The standard fan curve, tuned for aggressive ramp with quiet idle.
    /// Low-speed buffer at 40C avoids hard on/off cycling on bearings.
    /// Hits 100% at 70C for plenty of thermal headroom.
    pub fn standard() -> (c: Self)
        ensures
            c@ == standard_points(),
    {
        let c = Self::empty().append(3999, 0).append(4000, 1500).append(4500, 3000).append(
            5000,
            4000,
        ).append(5500, 5500).append(6000, 7000).append(6500, 8500).append(7000, 10000);
        assert(c@ =~= standard_points());
        c
    }

    /// The points in order.
    pub fn points(&self) -> (p: &Vec<FanPoint>)
        ensures
            p@ == self@,
    {
        &self.points
    }

    pub fn len(&self) -> (n: usize)
        ensures
            n == self@.len(),
    {
        self.points.len()
    }

    pub fn get_duty(&self, temp: i16) -> (r: Option<u16>)
        ensures
            r == curve_duty(self@, temp as int),
    {
        let n = self.points.len();
        // Below the curve means fans off
        if n > 0 && temp < self.points[0].temp {
            return Some(0);
        }
        let mut i: usize = 0;
        while n > 0 && i < n - 1
            invariant
                n == self.points@.len(),
                i <= n,
                !(n > 0 && temp < self@[0].temp),
                window_duty(self@, temp as int, 0) == window_duty(self@, temp as int, i as int),
            decreases n - i,
        {
            let prev = self.points[i];
            let next = self.points[i + 1];
            if let Some(duty) = prev.get_duty_between_points(next, temp) {
                return Some(duty);
            }
            i = i + 1;
        }
        // At or above the last point (a one-point curve ends here), the last point's duty
        if n > 0 && temp >= self.points[n - 1].temp {
            return Some(self.points[n - 1].duty);
        }
        // If there are no points, return None
        None
    }
}

/// The value of segment `j` at `temp`, with its end points' own duties.
pub open spec fn segment_value(points: Seq<FanPoint>, j: int, temp: int) -> int {
    if temp == points[j + 1].temp {
        points[j + 1].duty as int
    } else if temp == points[j].temp {
        points[j].duty as int
    } else {
        points[j].interpolated(points[j + 1], temp)
    }
}

proof fn lemma_segment_bounds(points: Seq<FanPoint>, j: int, temp: int)
    requires
        is_monotonic(points),
        0 <= j,
        j + 1 < points.len(),
        points[j].temp <= temp <= points[j + 1].temp,
    ensures
        points[j].duty <= segment_value(points, j, temp) <= points[j + 1].duty,
{
    assert(points[j].temp < points[j + 1].temp && points[j].duty <= points[j + 1].duty);
    if temp != points[j + 1].temp && temp != points[j].temp {
        lemma_round_div_between(
            points[j + 1].duty - points[j].duty,
            temp - points[j].temp,
            points[j + 1].temp - points[j].temp,
        );
    }
}

proof fn lemma_window_is_segment(points: Seq<FanPoint>, i: int, j: int, temp: int)
    requires
        is_monotonic(points),
        0 <= i <= j,
        j + 1 < points.len(),
        points[i].temp <= temp,
        points[j].temp <= temp <= points[j + 1].temp,
    ensures
        window_duty(points, temp, i) == Some(segment_value(points, j, temp) as u16),
        segment_value(points, j, temp) == segment_value(points, j, temp) as u16,
    decreases j - i,
{
    lemma_segment_bounds(points, j, temp);
    if i < j {
        assert(points[i].temp < points[i + 1].temp);
        if temp == points[i + 1].temp {
            if i + 1 < j {
                assert(points[i + 1].temp < points[j].temp);
            }
            assert(i + 1 == j);
        } else {
            assert(points[i + 1].temp <= points[j].temp) by {
                if i + 1 < j {
                    assert(points[i + 1].temp < points[j].temp);
                }
            }
            lemma_window_is_segment(points, i + 1, j, temp);
        }
    } else {
        assert(points[j].temp < points[j + 1].temp);
    }
}

proof fn lemma_find_segment(points: Seq<FanPoint>, i: int, temp: int) -> (j: int)
    requires
        is_monotonic(points),
        0 <= i,
        i + 1 < points.len(),
        points[i].temp <= temp <= points.last().temp,
    ensures
        i <= j,
        j + 1 < points.len(),
        points[j].temp <= temp <= points[j + 1].temp,
    decreases points.len() - i,
{
    if temp <= points[i + 1].temp {
        i
    } else {
        if i + 2 < points.len() {
            lemma_find_segment(points, i + 1, temp)
        } else {
            assert(points.last() == points[i + 1]);
            i
        }
    }
}

/// On a monotonic curve of one or more points every temperature gets a duty,
/// the duty at a point's temperature is that point's duty, every duty lies
/// between the first point's duty (or 0 below the curve) and the last
/// point's, and a higher temperature never gets a lower duty.
pub proof fn lemma_curve_monotonic(points: Seq<FanPoint>, t1: int, t2: int)
    requires
        is_monotonic(points),
        points.len() >= 1,
        t1 <= t2,
    ensures
        curve_duty(points, t1) is Some,
        curve_duty(points, t2) is Some,
        curve_duty(points, t1).unwrap() <= curve_duty(points, t2).unwrap(),
        curve_duty(points, t2).unwrap() <= points.last().duty,
        t1 >= points[0].temp ==> points[0].duty <= curve_duty(points, t1).unwrap(),
        forall|k: int| 0 <= k < points.len() && t1 == #[trigger] points[k].temp
            ==> curve_duty(points, t1) == Some(points[k].duty),
{
    if points.len() >= 2 {
        lemma_curve_monotonic_segments(points, t1, t2);
    }
}

proof fn lemma_curve_monotonic_segments(points: Seq<FanPoint>, t1: int, t2: int)
    requires
        is_monotonic(points),
        points.len() >= 2,
        t1 <= t2,
    ensures
        curve_duty(points, t1) is Some,
        curve_duty(points, t2) is Some,
        curve_duty(points, t1).unwrap() <= curve_duty(points, t2).unwrap(),
        curve_duty(points, t2).unwrap() <= points.last().duty,
        t1 >= points[0].temp ==> points[0].duty <= curve_duty(points, t1).unwrap(),
        forall|k: int| 0 <= k < points.len() && t1 == #[trigger] points[k].temp
            ==> curve_duty(points, t1) == Some(points[k].duty),
{
    let last = points.len() - 1;
    assert(points[0].temp < points[last].temp && points[0].duty <= points[last].duty);
    lemma_curve_outside(points, t1);
    lemma_curve_outside(points, t2);
    if points[0].temp <= t1 && t1 <= points[last].temp {
        let j1 = lemma_curve_in_range(points, t1);
        if t2 <= points[last].temp {
            let j2 = lemma_curve_in_range(points, t2);
            if t1 < t2 {
                if j1 == j2 {
                    lemma_segment_monotonic(points, j1, t1, t2);
                } else if j1 < j2 {
                    lemma_segment_bounds(points, j1, t1);
                    lemma_segment_bounds(points, j2, t2);
                    assert(points[j1 + 1].duty <= points[j2].duty) by {
                        if j1 + 1 < j2 {
                            assert(points[j1 + 1].duty <= points[j2].duty);
                        }
                    }
                } else {
                    assert(points[j2 + 1].temp <= points[j1].temp) by {
                        if j2 + 1 < j1 {
                            assert(points[j2 + 1].temp < points[j1].temp);
                        }
                    }
                }
            }
        }
    }
    if points[0].temp <= t2 && t2 <= points[last].temp {
        let j2 = lemma_curve_in_range(points, t2);
    }
    assert forall|k: int| 0 <= k < points.len() && t1 == #[trigger] points[k].temp implies curve_duty(
        points,
        t1,
    ) == Some(points[k].duty) by {
        if 0 < k {
            assert(points[0].temp < points[k].temp);
        }
        if k < last {
            assert(points[k].temp < points[last].temp);
        }
        let j = lemma_curve_in_range(points, t1);
        if k < j {
            assert(points[k].temp < points[j].temp);
        }
        if k > j + 1 {
            assert(points[j + 1].temp < points[k].temp);
        }
    }
}

/// Below the first point a curve gives 0; at or above the last, the last duty.
pub proof fn lemma_curve_outside(points: Seq<FanPoint>, temp: int)
    requires
        is_monotonic(points),
        points.len() >= 1,
    ensures
        temp < points[0].temp ==> curve_duty(points, temp) == Some(0u16),
        temp >= points.last().temp ==> curve_duty(points, temp) == Some(points.last().duty),
{
    let last = points.len() - 1;
    if temp > points.last().temp {
        lemma_window_none_above(points, temp, 0);
    } else if temp == points.last().temp {
        if last > 0 {
            assert(points[0].temp < points[last].temp);
            lemma_window_is_segment(points, 0, last - 1, temp);
        }
    }
}

/// Between two neighbouring points of a monotonic curve the duty is the
/// straight line between them, rounded to the nearest hundredth of a percent:
/// it lies between the two points' duties and within half a unit of the line.
pub proof fn lemma_curve_between_points(points: Seq<FanPoint>, j: int, temp: int)
    requires
        is_monotonic(points),
        0 <= j,
        j + 1 < points.len(),
        points[j].temp <= temp <= points[j + 1].temp,
    ensures
        curve_duty(points, temp) == Some(segment_value(points, j, temp) as u16),
        points[j].duty <= segment_value(points, j, temp) <= points[j + 1].duty,
        ({
            let p = points[j];
            let q = points[j + 1];
            let dt = q.temp - p.temp;
            let err = segment_value(points, j, temp) * dt - (p.duty * dt + (q.duty - p.duty) * (
            temp - p.temp));
            -dt <= 2 * err <= dt
        }),
{
    if j > 0 {
        assert(points[0].temp < points[j].temp);
    }
    lemma_window_is_segment(points, 0, j, temp);
    lemma_segment_bounds(points, j, temp);
    let p = points[j];
    let q = points[j + 1];
    assert(p.temp < q.temp && p.duty <= q.duty);
    let dt: int = q.temp - p.temp;
    let dd: int = q.duty - p.duty;
    let off: int = temp - p.temp;
    if temp == q.temp {
        assert(dd * dt == (q.duty - p.duty) * (temp - p.temp));
        assert(q.duty * dt - (p.duty * dt + dd * dt) == 0) by (nonlinear_arith)
            requires
                dd == q.duty - p.duty,
        ;
    } else if temp == p.temp {
        assert(dd * off == 0) by (nonlinear_arith)
            requires
                off == 0,
        ;
    } else {
        let a: int = dd * off;
        assert(a >= 0) by (nonlinear_arith)
            requires
                dd >= 0,
                off > 0,
                a == dd * off,
        ;
        let r: int = (2 * a + dt) / (2 * dt);
        assert(round_div(a, dt) == r);
        assert(-dt <= 2 * (r * dt - a) <= dt) by (nonlinear_arith)
            requires
                a >= 0,
                dt > 0,
                r == (2 * a + dt) / (2 * dt),
        ;
        assert(segment_value(points, j, temp) == p.duty + r);
        assert((p.duty + r) * dt - (p.duty * dt + a) == r * dt - a) by (nonlinear_arith);
    }
}

/// The segment that holds a temperature within the curve, and the curve's value there.
proof fn lemma_curve_in_range(points: Seq<FanPoint>, temp: int) -> (j: int)
    requires
        is_monotonic(points),
        points.len() >= 2,
        points[0].temp <= temp <= points.last().temp,
    ensures
        0 <= j,
        j + 1 < points.len(),
        points[j].temp <= temp <= points[j + 1].temp,
        segment_value(points, j, temp) == segment_value(points, j, temp) as u16,
        curve_duty(points, temp) == Some(segment_value(points, j, temp) as u16),
        points[j].duty <= segment_value(points, j, temp) <= points[j + 1].duty,
        points[0].duty <= segment_value(points, j, temp) <= points.last().duty,
{
    let j = lemma_find_segment(points, 0, temp);
    lemma_window_is_segment(points, 0, j, temp);
    lemma_segment_bounds(points, j, temp);
    let last = points.len() - 1;
    if 0 < j {
        assert(points[0].duty <= points[j].duty);
    }
    if j + 1 < last {
        assert(points[j + 1].duty <= points[last].duty);
    }
    j
}

proof fn lemma_window_none_above(points: Seq<FanPoint>, temp: int, i: int)
    requires
        is_monotonic(points),
        0 <= i,
        points.len() >= 1,
        temp > points.last().temp,
    ensures
        window_duty(points, temp, i) is None,
    decreases points.len() - i,
{
    if i + 1 < points.len() {
        let last = points.len() - 1;
        if i + 1 < last {
            assert(points[i + 1].temp < points[last].temp);
        }
        if i < last {
            assert(points[i].temp < points[last].temp);
        }
        lemma_window_none_above(points, temp, i + 1);
    }
}

proof fn lemma_segment_monotonic(points: Seq<FanPoint>, j: int, t1: int, t2: int)
    requires
        is_monotonic(points),
        0 <= j,
        j + 1 < points.len(),
        points[j].temp <= t1 <= t2 <= points[j + 1].temp,
    ensures
        segment_value(points, j, t1) <= segment_value(points, j, t2),
{
    lemma_segment_bounds(points, j, t1);
    lemma_segment_bounds(points, j, t2);
    let p = points[j];
    let q = points[j + 1];
    assert(p.temp < q.temp && p.duty <= q.duty);
    if t1 != p.temp && t1 != q.temp && t2 != p.temp && t2 != q.temp {
        let dd: int = q.duty - p.duty;
        let dt: int = q.temp - p.temp;
        let a1: int = dd * (t1 - p.temp);
        let a2: int = dd * (t2 - p.temp);
        assert(0 <= a1 <= a2) by (nonlinear_arith)
            requires
                dd >= 0,
                0 < t1 - p.temp <= t2 - p.temp,
                a1 == dd * (t1 - p.temp),
                a2 == dd * (t2 - p.temp),
        ;
        assert((2 * a1 + dt) / (2 * dt) <= (2 * a2 + dt) / (2 * dt)) by (nonlinear_arith)
            requires
                0 <= a1 <= a2,
                dt > 0,
        ;
    }
}

/// Convert a hundredths-of-a-percent duty to a 0-255 PWM byte.
pub open spec fn pwm_from_duty(duty: u16) -> u8 {
    ((duty as u32 * 255) / 10000) as u8
}

/// A millidegree reading in the curve's hundredths of a degree, held at the
/// largest `i16` for readings hotter than that.
pub open spec fn curve_temp(temp_millideg: u32) -> i16 {
    if temp_millideg / 10 > 32767 {
        32767i16
    } else {
        (temp_millideg / 10) as i16
    }
}

/// The PWM byte a curve gives at a millidegree temperature, taken in
/// hundredths of a degree as the curve is kept.
pub open spec fn curve_pwm(points: Seq<FanPoint>, temp_millideg: u32) -> Option<u8> {
    match curve_duty(points, curve_temp(temp_millideg) as int) {
        Some(d) => Some(pwm_from_duty(d)),
        None => None,
    }
}

/// Convert a millidegree temperature to a 0-255 PWM duty using the given curve.
pub fn duty_from_curve(curve: &FanCurve, temp_millideg: u32) -> (r: Option<u8>)
    ensures
        r == curve_pwm(curve@, temp_millideg),
{
    let hundredths: u32 = temp_millideg / 10;
    let temp: i16 = if hundredths > 32767 {
        32767
    } else {
        hundredths as i16
    };
    match curve.get_duty(temp) {
        Some(duty) => {
            let wide: u32 = duty as u32 * 255;
            Some((wide / 10_000) as u8)
        },
        None => None,
    }
}

/// A full-scale duty (10000) is the full PWM byte.
pub proof fn lemma_pwm_from_duty_range(d: u16)
    requires
        d <= 10000,
    ensures
        pwm_from_duty(d) as int == (d as int * 255) / 10000,
        d == 10000 ==> pwm_from_duty(d) == 255,
{
    assert((d as int * 255) / 10000 <= 255) by (nonlinear_arith)
        requires
            d <= 10000,
    ;
}

/// Every duty of the curve is at most full scale.
pub open spec fn duties_in_range(points: Seq<FanPoint>) -> bool {
    forall|i: int| 0 <= i < points.len() ==> #[trigger] points[i].duty <= 10000
}

/// A larger duty never gives a smaller PWM byte, up to full scale.
pub proof fn lemma_pwm_from_duty_monotonic(d1: u16, d2: u16)
    requires
        d1 <= d2 <= 10000,
    ensures
        pwm_from_duty(d1) <= pwm_from_duty(d2),
{
    lemma_pwm_from_duty_range(d1);
    lemma_pwm_from_duty_range(d2);
    assert((d1 as int * 255) / 10000 <= (d2 as int * 255) / 10000) by (nonlinear_arith)
        requires
            d1 <= d2,
    ;
}

/// On a monotonic curve of one or more points with duties up to full scale,
/// every millidegree reading gets a PWM byte, a hotter reading never gets a
/// smaller one, and any reading at or above the last point, however hot,
/// gets the last point's duty.
pub proof fn lemma_curve_pwm_monotonic(points: Seq<FanPoint>, t1: u32, t2: u32)
    requires
        is_monotonic(points),
        duties_in_range(points),
        points.len() >= 1,
        t1 <= t2,
    ensures
        curve_pwm(points, t1) is Some,
        curve_pwm(points, t2) is Some,
        curve_pwm(points, t1).unwrap() <= curve_pwm(points, t2).unwrap(),
        curve_pwm(points, t2).unwrap() <= pwm_from_duty(points.last().duty),
        t2 / 10 >= points.last().temp ==> curve_pwm(points, t2) == Some(
            pwm_from_duty(points.last().duty),
        ),
{
    let c1 = curve_temp(t1);
    let c2 = curve_temp(t2);
    assert(t1 / 10 <= t2 / 10) by (nonlinear_arith)
        requires
            t1 <= t2,
    ;
    assert(c1 <= c2);
    lemma_curve_monotonic(points, c1 as int, c2 as int);
    lemma_curve_outside(points, c2 as int);
    let last = points.len() - 1;
    assert(points[last].duty <= 10000);
    let d1 = curve_duty(points, c1 as int).unwrap();
    let d2 = curve_duty(points, c2 as int).unwrap();
    lemma_pwm_from_duty_monotonic(d1, d2);
    lemma_pwm_from_duty_monotonic(d2, points.last().duty);
}

/// Which temperature source drives a fan channel.
#[derive(Clone, Copy, Debug, PartialEq, Eq)]
pub enum TempSource {
    /// Max of CPU hwmon sensors only.
    Cpu,
    /// Max of GPU sensors (amdgpu hwmon + NVML).
    Gpu,
    /// Max of all sensors, CPU and GPU combined.
    All,
}

} // verus!
