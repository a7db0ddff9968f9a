//! Fixed-point arithmetic used throughout the simulation.
//!
//! Lengths are held in thousandths of a world unit, times in milliseconds,
//! angles in hundredths of a degree and trigonometric values scaled by
//! `TRIG_ONE`.
use vstd::prelude::*;

verus! {

/// Sub-units per world unit (lengths are stored in thousandths).
pub const LENGTH_ONE: i64 = 1000;

/// Milliseconds per second.
pub const MILLIS_PER_SECOND: i64 = 1000;

/// Angle units per degree (angles are stored in hundredths of a degree).
pub const ANGLE_PER_DEGREE: i64 = 100;

/// One full turn in angle units.
pub const FULL_TURN: i64 = 36000;

/// Half a turn in angle units.
pub const HALF_TURN: i64 = 18000;

/// A quarter turn in angle units.
pub const QUARTER_TURN: i64 = 9000;

/// The value that stands for 1.0 in a trigonometric table.
pub const TRIG_ONE: i64 = 1_000_000;

/// Division rounding towards zero, as Rust's `/` does on signed integers.
pub open spec fn trunc_div(a: int, b: int) -> int {
    if a >= 0 {
        a / b
    } else {
        -((-a) / b)
    }
}

/// `x` clamped to the range of `i64`.
pub open spec fn clamp_i64(x: int) -> int {
    if x < i64::MIN {
        i64::MIN as int
    } else if x > i64::MAX {
        i64::MAX as int
    } else {
        x
    }
}

/// An orientation brought into `[0, FULL_TURN)`.
pub open spec fn turn_angle(a: int) -> int {
    a % (FULL_TURN as int)
}

/// A barrel angle brought into the signed range `(-HALF_TURN, HALF_TURN]`,
/// whose sign tells which way the barrel leans.
pub open spec fn canonical_angle(a: int) -> int {
    let m = a % (FULL_TURN as int);
    if m > HALF_TURN {
        m - FULL_TURN
    } else {
        m
    }
}

/// Saturating conversion of a wide intermediate result.
pub fn saturate(x: i128) -> (r: i64)
    ensures
        r == clamp_i64(x as int),
{
    if x < i64::MIN as i128 {
        i64::MIN
    } else if x > i64::MAX as i128 {
        i64::MAX
    } else {
        x as i64
    }
}

/// Truncating division of a wide value by a positive divisor.
pub fn div_toward_zero(a: i128, b: i128) -> (r: i128)
    requires
        b > 0,
        a > i128::MIN,
    ensures
        r == trunc_div(a as int, b as int),
{
    a / b
}

/// The product of a rate and a time span, widened so that it cannot
/// overflow.
pub fn mul_time(v: i128, dt: u32) -> (r: i128)
    requires
        -0x1_0000_0000_0000_0000_0000 <= v <= 0x1_0000_0000_0000_0000_0000,
    ensures
        r == v * dt,
        -0x1_0000_0000_0000_0000_0000_0000_0000 <= r <= 0x1_0000_0000_0000_0000_0000_0000_0000,
{
    assert(-0x1_0000_0000_0000_0000_0000_0000_0000 <= v * dt <= 0x1_0000_0000_0000_0000_0000_0000_0000)
        by (nonlinear_arith)
        requires
            -0x1_0000_0000_0000_0000_0000 <= v <= 0x1_0000_0000_0000_0000_0000,
            0 <= dt <= 0xffff_ffff,
    ;
    v * dt as i128
}

/// Brings an orientation into `[0, FULL_TURN)`.
pub fn wrap_angle(a: i128) -> (r: i64)
    ensures
        r == turn_angle(a as int),
        0 <= r < FULL_TURN,
{
    let full = FULL_TURN as i128;
    let m: i128 = if a % full < 0 {
        a % full + full
    } else {
        a % full
    };
    assert(m == (a as int) % (FULL_TURN as int)) by {
        if a >= 0 {
        } else {
            assert((a as int) % 36000 == 36000 - ((-a) as int) % 36000
                || (a as int) % 36000 == 0) by (nonlinear_arith);
        }
    }
    m as i64
}

/// Brings a barrel angle into `(-HALF_TURN, HALF_TURN]`.
pub fn normalize_angle(a: i128) -> (r: i64)
    ensures
        r == canonical_angle(a as int),
        -HALF_TURN < r <= HALF_TURN,
{
    let full = FULL_TURN as i128;
    let m: i128 = if a % full < 0 {
        a % full + full
    } else {
        a % full
    };
    assert(m == (a as int) % (FULL_TURN as int)) by {
        if a >= 0 {
        } else {
            assert((a as int) % 36000 == 36000 - ((-a) as int) % 36000
                || (a as int) % 36000 == 0) by (nonlinear_arith);
        }
    }
    if m > HALF_TURN as i128 {
        (m - full) as i64
    } else {
        m as i64
    }
}

/// A table of sines over one full turn, one entry per angle unit, scaled by
/// `TRIG_ONE`. Cosines are read a quarter turn further on.
#[derive(Debug)]
pub struct TrigTable {
    sines: Vec<i64>,
}

impl TrigTable {
    /// The entries of the table.
    pub closed spec fn entries(&self) -> Seq<i64> {
        self.sines@
    }

    /// A table holds one entry per angle unit, each within `[-TRIG_ONE, TRIG_ONE]`.
    pub open spec fn wf(&self) -> bool {
        &&& self.entries().len() == FULL_TURN
        &&& forall|i: int|
            0 <= i < FULL_TURN ==> -TRIG_ONE <= #[trigger] self.entries()[i] <= TRIG_ONE
    }

    /// The scaled sine of angle `a`.
    pub open spec fn sin_spec(&self, a: int) -> int {
        self.entries()[a % (FULL_TURN as int)] as int
    }

    /// The scaled cosine of angle `a`.
    pub open spec fn cos_spec(&self, a: int) -> int {
        self.sin_spec(a + QUARTER_TURN)
    }

    /// Takes a table of sines; `None` when it has the wrong length or an
    /// entry out of range.
    pub fn new(sines: Vec<i64>) -> (r: Option<TrigTable>)
        ensures
            r matches Some(t) ==> t.wf() && t.entries() == sines@,
            r is None <==> !(sines@.len() == FULL_TURN && forall|i: int|
                0 <= i < sines@.len() ==> -TRIG_ONE <= #[trigger] sines@[i] <= TRIG_ONE),
    {
        if sines.len() != FULL_TURN as usize {
            return None;
        }
        let mut i: usize = 0;
        while i < sines.len()
            invariant
                0 <= i <= sines@.len(),
                forall|k: int| 0 <= k < i ==> -TRIG_ONE <= #[trigger] sines@[k] <= TRIG_ONE,
            decreases sines@.len() - i,
        {
            if sines[i] < -TRIG_ONE || sines[i] > TRIG_ONE {
                return None;
            }
            i += 1;
        }
        Some(TrigTable { sines })
    }

    fn index_of(a: i64) -> (r: usize)
        ensures
            r as int == (a as int) % (FULL_TURN as int),
            r < FULL_TURN,
    {
        let m: i64 = if a % FULL_TURN < 0 {
            a % FULL_TURN + FULL_TURN
        } else {
            a % FULL_TURN
        };
        assert(m == (a as int) % (FULL_TURN as int)) by {
            if a >= 0 {
            } else {
                assert((a as int) % 36000 == 36000 - ((-a) as int) % 36000
                    || (a as int) % 36000 == 0) by (nonlinear_arith);
            }
        }
        m as usize
    }

    /// The scaled sine of angle `a`.
    pub fn sin(&self, a: i64) -> (r: i64)
        requires
            self.wf(),
        ensures
            r == self.sin_spec(a as int),
            -TRIG_ONE <= r <= TRIG_ONE,
    {
        self.sines[Self::index_of(a)]
    }

    /// The scaled cosine of angle `a`.
    pub fn cos(&self, a: i64) -> (r: i64)
        requires
            self.wf(),
        ensures
            r == self.cos_spec(a as int),
            -TRIG_ONE <= r <= TRIG_ONE,
    {
        let i = Self::index_of(a % FULL_TURN + QUARTER_TURN);
        assert(((a as int) % 36000 + 9000) % 36000 == (a as int + 9000) % 36000) by {
            vstd::arithmetic::div_mod::lemma_add_mod_noop(a as int, 9000, 36000);
            vstd::arithmetic::div_mod::lemma_small_mod(9000, 36000);
        }
        self.sines[i]
    }
}

} // verus!
