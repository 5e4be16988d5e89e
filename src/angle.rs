//! Angles in microarcseconds, label rotation and sexagesimal parts.

use vstd::prelude::*;

verus! {

/// Microarcseconds in one arcsecond.
pub const UAS_PER_ARCSEC: i64 = 1_000_000;

/// Microarcseconds in one arcminute.
pub const UAS_PER_ARCMIN: i64 = 60_000_000;

/// Microarcseconds in one degree.
pub const UAS_PER_DEG: i64 = 3_600_000_000;

/// A quarter turn (90 degrees) in microarcseconds.
pub const HALF_PI_UAS: i64 = 324_000_000_000;

/// A half turn (180 degrees) in microarcseconds.
pub const PI_UAS: i64 = 648_000_000_000;

/// A full turn (360 degrees) in microarcseconds.
pub const TWO_PI_UAS: i64 = 1_296_000_000_000;

/// A label rotation folded into the half-open quarter-turn range, so that
/// text is never drawn upside down.
pub open spec fn folded_rotation(rot: int) -> int {
    if rot > HALF_PI_UAS {
        rot - PI_UAS
    } else if rot <= -HALF_PI_UAS {
        rot + PI_UAS
    } else {
        rot
    }
}

/// Folds a label rotation, given within a half turn either way, into the
/// range from minus a quarter turn (excluded) to a quarter turn (included).
pub fn fold_label_rotation(rot: i64) -> (r: i64)
    requires
        -PI_UAS <= rot <= PI_UAS,
    ensures
        r == folded_rotation(rot as int),
        -HALF_PI_UAS < r <= HALF_PI_UAS,
        r == rot || r == rot - PI_UAS || r == rot + PI_UAS,
{
    if rot > HALF_PI_UAS {
        rot - PI_UAS
    } else if rot <= -HALF_PI_UAS {
        rot + PI_UAS
    } else {
        rot
    }
}

/// An angle split into sign, degrees, arcminutes, arcseconds and microarcseconds.
#[derive(Clone, Copy, Debug, PartialEq, Eq, Structural)]
pub struct Dms {
    pub negative: bool,
    pub degrees: u64,
    pub minutes: u64,
    pub seconds: u64,
    pub micros: u64,
}

/// The magnitude of an angle, in microarcseconds, from its sexagesimal parts.
pub open spec fn dms_magnitude(d: Dms) -> int {
    d.degrees * UAS_PER_DEG + d.minutes * UAS_PER_ARCMIN + d.seconds * UAS_PER_ARCSEC + d.micros
}

/// Splits an angle into its sexagesimal parts, as label text shows it.
pub fn to_dms(a: i64) -> (d: Dms)
    requires
        a > i64::MIN,
    ensures
        d.negative == (a < 0),
        d.minutes < 60,
        d.seconds < 60,
        d.micros < 1_000_000,
        (if d.negative { -dms_magnitude(d) } else { dms_magnitude(d) }) == a,
{
    let m: u64 = if a < 0 { (-a) as u64 } else { a as u64 };
    let degrees = m / (UAS_PER_DEG as u64);
    let r1 = m % (UAS_PER_DEG as u64);
    let minutes = r1 / (UAS_PER_ARCMIN as u64);
    let r2 = r1 % (UAS_PER_ARCMIN as u64);
    let seconds = r2 / (UAS_PER_ARCSEC as u64);
    let micros = r2 % (UAS_PER_ARCSEC as u64);
    proof {
        assert(r1 < 3_600_000_000);
        assert(minutes < 60) by (nonlinear_arith)
            requires minutes == r1 / 60_000_000, r1 < 3_600_000_000;
        assert(seconds < 60) by (nonlinear_arith)
            requires seconds == r2 / 1_000_000, r2 < 60_000_000;
        assert(m == degrees * 3_600_000_000 + minutes * 60_000_000 + seconds * 1_000_000 + micros) by (nonlinear_arith)
            requires
                degrees == m / 3_600_000_000, r1 == m % 3_600_000_000,
                minutes == r1 / 60_000_000, r2 == r1 % 60_000_000,
                seconds == r2 / 1_000_000, micros == r2 % 1_000_000;
    }
    Dms { negative: a < 0, degrees, minutes, seconds, micros }
}

} // verus!
