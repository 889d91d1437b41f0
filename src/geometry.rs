use vstd::prelude::*;

verus! {

/// Width of the play area, in pixels.
pub const WIDTH: i32 = 500;

/// Height of the play area, in pixels.
pub const HEIGHT: i32 = 500;

/// Fixed-point units in one pixel.
pub const SUBPIXELS: i64 = 1024;

/// Largest coordinate magnitude, in fixed-point units, that the arithmetic
/// below is proved for (far outside the play area).
pub const COORD_LIMIT: i64 = 1099511627776;

/// A point or displacement in world space, in fixed-point units
/// (`SUBPIXELS` per pixel). The origin is the centre of the play area,
/// `x` grows to the right and `y` grows upwards.
#[derive(Clone, Copy, Debug, PartialEq, Eq, Structural)]
pub struct Vec2 {
    pub x: i64,
    pub y: i64,
}

/// A pixel cell of the play area: column `x`, row `y`, rows counted downwards
/// from the top edge.
#[derive(Clone, Copy, Debug, PartialEq, Eq, Structural)]
pub struct Pixel {
    pub x: i32,
    pub y: i32,
}

pub open spec fn within_limit(v: int) -> bool {
    -COORD_LIMIT <= v <= COORD_LIMIT
}

/// Division by `SUBPIXELS`, rounded toward zero.
pub open spec fn trunc_subpixels(v: int) -> int {
    if v >= 0 {
        v / (SUBPIXELS as int)
    } else {
        -((-v) / (SUBPIXELS as int))
    }
}

/// The pixel column of a world `x` coordinate: the distance from the left
/// edge in pixels, rounded toward zero, so column 0 spans one pixel on
/// either side of the edge.
pub open spec fn column_of(x: int) -> int {
    trunc_subpixels(x + (WIDTH / 2) * SUBPIXELS)
}

/// The pixel row of a world `y` coordinate: the distance below the top edge
/// in pixels, rounded toward zero (rows grow downwards).
pub open spec fn row_of(y: int) -> int {
    trunc_subpixels(-y + (HEIGHT / 2) * SUBPIXELS)
}

/// `v / d` rounded toward zero, for `d != 0`.
pub open spec fn quotient(v: int, d: int) -> int {
    let m = if v >= 0 { v } else { -v };
    let n = if d >= 0 { d } else { -d };
    if (v >= 0) == (d >= 0) {
        m / n
    } else {
        -(m / n)
    }
}

fn div_toward_zero(v: i64, d: i64) -> (r: i64)
    requires
        within_limit(v as int),
        d != 0,
    ensures
        r as int == quotient(v as int, d as int),
{
    let m: i128 = if v >= 0 { v as i128 } else { -(v as i128) };
    let n: i128 = if d >= 0 { d as i128 } else { -(d as i128) };
    let q: i128 = m / n;
    assert(q <= m) by (nonlinear_arith)
        requires
            q == m / n,
            m >= 0,
            n >= 1,
    ;
    if (v >= 0) == (d >= 0) {
        q as i64
    } else {
        (-q) as i64
    }
}

/// Division by `SUBPIXELS`, rounded toward zero.
fn trunc_div_subpixels(v: i64) -> (r: i64)
    requires
        -COORD_LIMIT - 1048576 <= v <= COORD_LIMIT + 1048576,
    ensures
        r as int == trunc_subpixels(v as int),
        -1073742848 <= r <= 1073742848,
{
    if v >= 0 {
        v / SUBPIXELS
    } else {
        -((-v) / SUBPIXELS)
    }
}

proof fn lemma_product_bound(a: int, b: int)
    requires
        within_limit(a),
        within_limit(b),
    ensures
        -1208925819614629174706176 <= a * b <= 1208925819614629174706176,
{
    assert(-COORD_LIMIT * COORD_LIMIT <= a * b <= COORD_LIMIT * COORD_LIMIT) by (nonlinear_arith)
        requires
            within_limit(a),
            within_limit(b),
    ;
}

impl Pixel {
    /// Whether the cell lies inside the play area.
    pub open spec fn in_bounds(self) -> bool {
        0 <= self.x < WIDTH && 0 <= self.y < HEIGHT
    }

    pub fn is_in_bounds(&self) -> (r: bool)
        ensures
            r == self.in_bounds(),
    {
        0 <= self.x && self.x < WIDTH && 0 <= self.y && self.y < HEIGHT
    }

    pub fn new(x: i32, y: i32) -> (r: Pixel)
        ensures
            r == (Pixel { x, y }),
    {
        Pixel { x, y }
    }
}

impl Vec2 {
    /// Whether both coordinates lie within `COORD_LIMIT`.
    pub open spec fn bounded(self) -> bool {
        within_limit(self.x as int) && within_limit(self.y as int)
    }

    /// The pixel cell that holds this point.
    pub open spec fn pixel(self) -> Pixel {
        Pixel { x: column_of(self.x as int) as i32, y: row_of(self.y as int) as i32 }
    }

    pub open spec fn spec_len_squared(self) -> int {
        self.x * self.x + self.y * self.y
    }

    pub open spec fn spec_dot(a: Vec2, b: Vec2) -> int {
        a.x * b.x + a.y * b.y
    }

    pub fn new(x: i64, y: i64) -> (r: Vec2)
        ensures
            r == (Vec2 { x, y }),
    {
        Vec2 { x, y }
    }

    pub fn zero() -> (r: Vec2)
        ensures
            r == (Vec2 { x: 0, y: 0 }),
    {
        Vec2 { x: 0, y: 0 }
    }

    pub fn x(&self) -> (r: i64)
        ensures
            r == self.x,
    {
        self.x
    }

    pub fn y(&self) -> (r: i64)
        ensures
            r == self.y,
    {
        self.y
    }

    /// The pixel cell of this point: the world origin is the centre of the
    /// play area, the `y` axis is flipped, and distances from the top left
    /// corner are rounded toward zero.
    pub fn to_pixel(&self) -> (r: Pixel)
        requires
            self.bounded(),
        ensures
            r == self.pixel(),
            r.x as int == column_of(self.x as int),
            r.y as int == row_of(self.y as int),
    {
        let cx = trunc_div_subpixels(self.x + (WIDTH / 2) as i64 * SUBPIXELS);
        let cy = trunc_div_subpixels(-self.y + (HEIGHT / 2) as i64 * SUBPIXELS);
        Pixel { x: cx as i32, y: cy as i32 }
    }

    /// The world point at the top left corner of a pixel cell.
    pub fn from_pixel(p: Pixel) -> (r: Vec2)
        ensures
            r.x == (p.x - WIDTH / 2) * SUBPIXELS,
            r.y == (HEIGHT / 2 - p.y) * SUBPIXELS,
            r.pixel() == p,
    {
        let x = (p.x as i64 - (WIDTH / 2) as i64) * SUBPIXELS;
        let y = ((HEIGHT / 2) as i64 - p.y as i64) * SUBPIXELS;
        Vec2 { x, y }
    }

    pub fn len_squared(&self) -> (r: i128)
        requires
            self.bounded(),
        ensures
            r == self.spec_len_squared(),
    {
        proof { lemma_product_bound(self.x as int, self.x as int); }
        proof { lemma_product_bound(self.y as int, self.y as int); }
        (self.x as i128) * (self.x as i128) + (self.y as i128) * (self.y as i128)
    }

    pub fn dot(fst: &Vec2, snd: &Vec2) -> (r: i128)
        requires
            fst.bounded(),
            snd.bounded(),
        ensures
            r == Vec2::spec_dot(*fst, *snd),
    {
        proof { lemma_product_bound(fst.x as int, snd.x as int); }
        proof { lemma_product_bound(fst.y as int, snd.y as int); }
        (fst.x as i128) * (snd.x as i128) + (fst.y as i128) * (snd.y as i128)
    }

    /// The vector turned a quarter turn counter-clockwise: `(-y, x)`.
    pub fn perpendicular(&self) -> (r: Vec2)
        requires
            self.y != i64::MIN,
        ensures
            r == (Vec2 { x: -self.y as i64, y: self.x }),
    {
        Vec2 { x: -self.y, y: self.x }
    }

    pub fn add(&self, other: &Vec2) -> (r: Vec2)
        requires
            self.bounded(),
            other.bounded(),
        ensures
            r == (Vec2 { x: (self.x + other.x) as i64, y: (self.y + other.y) as i64 }),
    {
        Vec2 { x: self.x + other.x, y: self.y + other.y }
    }

    pub fn sub(&self, other: &Vec2) -> (r: Vec2)
        requires
            self.bounded(),
            other.bounded(),
        ensures
            r == (Vec2 { x: (self.x - other.x) as i64, y: (self.y - other.y) as i64 }),
    {
        Vec2 { x: self.x - other.x, y: self.y - other.y }
    }

    /// The vector divided by a non-zero integer, each coordinate rounded
    /// toward zero.
    pub fn div(&self, divisor: i64) -> (r: Vec2)
        requires
            self.bounded(),
            divisor != 0,
        ensures
            r.x as int == quotient(self.x as int, divisor as int),
            r.y as int == quotient(self.y as int, divisor as int),
    {
        Vec2 { x: div_toward_zero(self.x, divisor), y: div_toward_zero(self.y, divisor) }
    }

    /// The vector multiplied by an integer factor.
    pub fn scale(&self, factor: i64) -> (r: Vec2)
        requires
            i64::MIN <= self.x * factor <= i64::MAX,
            i64::MIN <= self.y * factor <= i64::MAX,
        ensures
            r == (Vec2 { x: (self.x * factor) as i64, y: (self.y * factor) as i64 }),
    {
        Vec2 { x: self.x * factor, y: self.y * factor }
    }

    pub fn add_assign(&mut self, other: &Vec2)
        requires
            old(self).bounded(),
            other.bounded(),
        ensures
            final(self).x == old(self).x + other.x,
            final(self).y == old(self).y + other.y,
    {
        self.x = self.x + other.x;
        self.y = self.y + other.y;
    }
}

} // verus!
