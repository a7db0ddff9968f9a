//! The terrain: a height field with one sample per world unit.
use crate::fixed::LENGTH_ONE;
use vstd::prelude::*;

verus! {

/// The fewest samples a terrain may have.
pub const MIN_SAMPLES: usize = 4;

/// The height of terrain `h` at horizontal position `x` (both in thousandths
/// of a unit): linear between the two neighbouring samples, and the first or
/// last sample beyond the ends.
pub open spec fn height_at(h: Seq<u16>, x: int) -> int {
    if x < 0 {
        h[0] * LENGTH_ONE
    } else if x / (LENGTH_ONE as int) >= h.len() - 1 {
        h.last() * LENGTH_ONE
    } else {
        let i = x / (LENGTH_ONE as int);
        h[i] * LENGTH_ONE + (x - i * LENGTH_ONE) * (h[i + 1] - h[i])
    }
}

/// The sample index whose slope stands for position `x`, kept off the two
/// ends.
pub open spec fn slope_index(len: int, x: int) -> int {
    if x < LENGTH_ONE {
        1
    } else if x / (LENGTH_ONE as int) > len - 2 {
        len - 2
    } else {
        x / (LENGTH_ONE as int)
    }
}

/// A height field, fixed once made.
#[derive(Debug)]
pub struct Terrain {
    max_height: u32,
    heightmap: Vec<u16>,
}

impl Terrain {
    pub closed spec fn samples(&self) -> Seq<u16> {
        self.heightmap@
    }

    pub closed spec fn max_height_spec(&self) -> u32 {
        self.max_height
    }

    pub open spec fn wf(&self) -> bool {
        MIN_SAMPLES <= self.samples().len() < u16::MAX
    }

    /// A terrain from its samples (one per unit of width) and the height of
    /// the world.
    pub fn new(max_height: u32, heightmap: Vec<u16>) -> (r: Terrain)
        requires
            MIN_SAMPLES <= heightmap@.len() < u16::MAX,
        ensures
            r.wf(),
            r.samples() == heightmap@,
            r.max_height_spec() == max_height,
    {
        Terrain { max_height, heightmap }
    }

    pub fn max_height(&self) -> (r: u32)
        ensures
            r == self.max_height_spec(),
    {
        self.max_height
    }

    pub fn width(&self) -> (r: usize)
        ensures
            r == self.samples().len(),
    {
        self.heightmap.len()
    }

    pub fn sample(&self, i: usize) -> (r: u16)
        requires
            i < self.samples().len(),
        ensures
            r == self.samples()[i as int],
    {
        self.heightmap[i]
    }

    /// The height at `x` (thousandths of a unit).
    pub fn get_height(&self, x: i64) -> (r: i64)
        requires
            self.wf(),
        ensures
            r == height_at(self.samples(), x as int),
            0 <= r <= u16::MAX * LENGTH_ONE,
    {
        let n = self.heightmap.len();
        if x < 0 {
            return self.heightmap[0] as i64 * LENGTH_ONE;
        }
        let i = x / LENGTH_ONE;
        if i >= (n - 1) as i64 {
            return self.heightmap[n - 1] as i64 * LENGTH_ONE;
        }
        let y0 = self.heightmap[i as usize] as i64;
        let y1 = self.heightmap[i as usize + 1] as i64;
        let t = x - i * LENGTH_ONE;
        assert(0 <= t < 1000);
        assert(0 <= t * (y1 - y0) + y0 * 1000 <= 65535 * 1000) by (nonlinear_arith)
            requires
                0 <= t < 1000,
                0 <= y0 <= 65535,
                0 <= y1 <= 65535,
        ;
        y0 * LENGTH_ONE + t * (y1 - y0)
    }

    /// The rise from one sample to the next around `x`, measured between
    /// samples kept off the two ends; the terrain's surface leans by the
    /// arctangent of it.
    pub fn slope_at(&self, x: i64) -> (r: i32)
        requires
            self.wf(),
        ensures
            ({
                let i = slope_index(self.samples().len() as int, x as int);
                r == self.samples()[i + 1] - self.samples()[i]
            }),
    {
        let n = self.heightmap.len();
        let i: usize = if x < LENGTH_ONE {
            1
        } else if x / LENGTH_ONE > (n - 2) as i64 {
            n - 2
        } else {
            (x / LENGTH_ONE) as usize
        };
        self.heightmap[i + 1] as i32 - self.heightmap[i] as i32
    }
}

/// The height field has no jumps: at each sample point it takes the
/// sample's height, so the pieces on either side meet there; one
/// thousandth further along it moves by at most one sample step; and beyond
/// the ends it stays at the first or last sample.
pub proof fn lemma_height_continuous(h: Seq<u16>, x: int)
    requires
        h.len() >= 2,
    ensures
        0 <= x < h.len() ==> height_at(h, x * LENGTH_ONE) == h[x] * LENGTH_ONE,
        1 <= x < h.len() ==> height_at(h, x * LENGTH_ONE - 1) == h[x] * LENGTH_ONE - (h[x]
            - h[x - 1]),
        -(u16::MAX as int) <= height_at(h, x + 1) - height_at(h, x) <= u16::MAX,
        x < 0 ==> height_at(h, x) == h[0] * LENGTH_ONE,
        x >= (h.len() - 1) * LENGTH_ONE ==> height_at(h, x) == h.last() * LENGTH_ONE,
{
    let n = h.len() as int;
    if 0 <= x < n {
        assert((x * 1000) / 1000 == x) by (nonlinear_arith);
        if x == n - 1 {
            assert(h.last() == h[x]);
        }
    }
    if 1 <= x < n {
        let y = x * 1000 - 1;
        assert(y / 1000 == x - 1) by (nonlinear_arith)
            requires
                x >= 1,
                y == x * 1000 - 1,
        ;
        assert(y - (x - 1) * 1000 == 999);
        assert(height_at(h, y) == h[x - 1] * 1000 + 999 * (h[x] - h[x - 1]));
    }
    if x >= (n - 1) * 1000 {
        assert(x / 1000 >= n - 1) by (nonlinear_arith)
            requires
                x >= (n - 1) * 1000,
        ;
    }
    if x >= 0 {
        let i = x / 1000;
        let j = (x + 1) / 1000;
        assert(j == i || (j == i + 1 && x + 1 == j * 1000)) by (nonlinear_arith)
            requires
                x >= 0,
                i == x / 1000,
                j == (x + 1) / 1000,
        ;
        assert(0 <= x - i * 1000 < 1000) by (nonlinear_arith)
            requires
                x >= 0,
                i == x / 1000,
        ;
        if i < n - 1 {
            let d = h[i + 1] - h[i];
            assert(-65535 <= d <= 65535);
            assert(height_at(h, x) == h[i] * 1000 + (x - i * 1000) * d);
            if j == i {
                assert(height_at(h, x + 1) == h[i] * 1000 + (x + 1 - i * 1000) * d);
                assert((x + 1 - i * 1000) * d - (x - i * 1000) * d == d) by (nonlinear_arith);
            } else {
                assert(x - i * 1000 == 999);
                if j < n - 1 {
                    assert(height_at(h, x + 1) == h[j] * 1000 + (x + 1 - j * 1000) * (h[j + 1]
                        - h[j]));
                    assert(height_at(h, x + 1) == h[i + 1] * 1000);
                } else {
                    assert(h.last() == h[i + 1]);
                    assert(height_at(h, x + 1) == h[i + 1] * 1000);
                }
            }
        } else {
            assert(j >= n - 1);
        }
    } else if x == -1 {
        assert(0int / 1000 == 0);
        assert(height_at(h, 0) == h[0] * 1000);
    }
}

} // verus!
