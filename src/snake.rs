use vstd::prelude::*;
use crate::colour::{Colour, TurnDirection};
use crate::geometry::{Vec2, Pixel, SUBPIXELS, WIDTH, HEIGHT, trunc_subpixels};
use crate::heading::{HEADINGS, VELOCITY, dx, dy, step_x, step_y};
use vstd::arithmetic::div_mod::lemma_fundamental_div_mod_converse;
use crate::trails::{TrailBitmap, TrailEntry, TrailQueue, marked_all};

verus! {

/// Radius of a snake's body, in pixels.
pub const SNAKE_RADIUS: i64 = 3;

/// Most players a match can hold.
pub const PLAYER_MAX: usize = 3;

/// Largest coordinate magnitude of a snake's centre, in fixed-point units.
pub const POSITION_LIMIT: i64 = 549755813888;

/// Side of the square of offsets scanned to draw a body.
pub open spec fn scan_side() -> int {
    2 * SNAKE_RADIUS
}

/// The offset, in pixels, at step `k` of the scan: columns outer, rows inner.
pub open spec fn scan_offset(k: int) -> (int, int) {
    (k / scan_side() - SNAKE_RADIUS, k % scan_side() - SNAKE_RADIUS)
}

/// Whether an offset lies strictly within the body's radius.
pub open spec fn in_body(o: (int, int)) -> bool {
    o.0 * o.0 + o.1 * o.1 < SNAKE_RADIUS * SNAKE_RADIUS
}

/// Whether a coordinate may be the centre of a snake.
pub open spec fn position_ok(v: int) -> bool {
    -POSITION_LIMIT <= v <= POSITION_LIMIT
}

/// The entries for the in-bounds pixels of a drawn body, tagged with `frame`.
pub open spec fn trail_entries(d: Seq<(Pixel, Colour)>, frame: u64) -> Seq<TrailEntry>
    decreases d.len(),
{
    if d.len() == 0 {
        Seq::empty()
    } else {
        let prev = trail_entries(d.drop_last(), frame);
        let (p, c) = d.last();
        if p.in_bounds() {
            prev.push(TrailEntry { pixel: p, colour: c, frame })
        } else {
            prev
        }
    }
}

/// The colour of each player slot.
pub open spec fn player_colour(i: int) -> Colour {
    if i == 0 {
        Colour::Red(255)
    } else if i == 1 {
        Colour::Green(255)
    } else {
        Colour::Blue(255)
    }
}

/// Most frames the straight-line law below is stated for.
pub const MAX_STRAIGHT_FRAMES: u64 = 1099511627776;

/// Half the side of the square where snakes spawn, in pixels: the central
/// half of the play area.
pub const SPAWN_HALF_SIDE: i64 = 125;

/// Whether a world point lies in the central half of the play area.
pub open spec fn in_spawn_area(p: Vec2) -> bool {
    &&& -SPAWN_HALF_SIDE * SUBPIXELS <= p.x < SPAWN_HALF_SIDE * SUBPIXELS
    &&& -SPAWN_HALF_SIDE * SUBPIXELS <= p.y < SPAWN_HALF_SIDE * SUBPIXELS
}

/// Relies on rand's `Rng::gen_range` on `thread_rng()`: a value drawn from
/// the half-open range `low..high`, which must not be empty.
#[verifier::external_body]
fn random_in_range(low: i64, high: i64) -> (r: i64)
    requires
        low < high,
    ensures
        low <= r < high,
{
    rand::Rng::gen_range(&mut rand::thread_rng(), low..high)
}

fn player_colour_of(i: usize) -> (r: Colour)
    ensures
        r == player_colour(i as int),
{
    if i == 0 {
        Colour::Red(255)
    } else if i == 1 {
        Colour::Green(255)
    } else {
        Colour::Blue(255)
    }
}

/// Snakes for `count` players, each at a random point of the central half of
/// the play area with a random heading, coloured by player slot.
pub fn generate_snakes(count: usize) -> (r: Vec<Snake>)
    requires
        count <= PLAYER_MAX,
    ensures
        r@.len() == count,
        forall|i: int|
            0 <= i < count ==> {
                &&& (#[trigger] r@[i]).wf()
                &&& r@[i].colour == player_colour(i)
                &&& in_spawn_area(r@[i].position)
            },
{
    let mut snakes: Vec<Snake> = Vec::with_capacity(count);
    let low = -SPAWN_HALF_SIDE * SUBPIXELS;
    let high = SPAWN_HALF_SIDE * SUBPIXELS;
    let mut i: usize = 0;
    while i < count
        invariant
            i <= count,
            low == -SPAWN_HALF_SIDE * SUBPIXELS,
            high == SPAWN_HALF_SIDE * SUBPIXELS,
            snakes@.len() == i,
            forall|j: int|
                0 <= j < i ==> {
                    &&& (#[trigger] snakes@[j]).wf()
                    &&& snakes@[j].colour == player_colour(j)
                    &&& in_spawn_area(snakes@[j].position)
                },
        decreases count - i,
    {
        let x = random_in_range(low, high);
        let y = random_in_range(low, high);
        let heading = random_in_range(0, HEADINGS as i64) as u32;
        snakes.push(Snake { position: Vec2 { x, y }, heading, colour: player_colour_of(i) });
        i = i + 1;
    }
    snakes
}

/// The snake after `n` frames of `translate` with no turn.
pub open spec fn translated_times(s: Snake, n: nat) -> Snake
    decreases n,
{
    if n == 0 {
        s
    } else {
        translated_times(s, (n - 1) as nat).translated()
    }
}

pub(crate) proof fn lemma_step_bounds(h: int)
    requires
        0 <= h < HEADINGS,
    ensures
        -VELOCITY <= dx(h) <= VELOCITY,
        -VELOCITY <= dy(h) <= VELOCITY,
{
}

/// Straight-line motion: `n` frames of translation without turning move the
/// centre by exactly `n` single-frame steps along the unchanged heading.
pub proof fn lemma_straight_line(s: Snake, n: nat)
    requires
        s.wf(),
        n <= MAX_STRAIGHT_FRAMES,
    ensures
        translated_times(s, n).position.x == s.position.x + n * dx(s.heading as int),
        translated_times(s, n).position.y == s.position.y + n * dy(s.heading as int),
        translated_times(s, n).heading == s.heading,
        translated_times(s, n).colour == s.colour,
    decreases n,
{
    if n > 0 {
        let m = (n - 1) as nat;
        let h = s.heading as int;
        lemma_straight_line(s, m);
        lemma_step_bounds(h);
        assert(-MAX_STRAIGHT_FRAMES * VELOCITY <= n * dx(h) <= MAX_STRAIGHT_FRAMES * VELOCITY)
            by (nonlinear_arith)
            requires
                n <= MAX_STRAIGHT_FRAMES,
                -VELOCITY <= dx(h) <= VELOCITY,
        ;
        assert(-MAX_STRAIGHT_FRAMES * VELOCITY <= n * dy(h) <= MAX_STRAIGHT_FRAMES * VELOCITY)
            by (nonlinear_arith)
            requires
                n <= MAX_STRAIGHT_FRAMES,
                -VELOCITY <= dy(h) <= VELOCITY,
        ;
        assert(m * dx(h) + dx(h) == n * dx(h)) by (nonlinear_arith)
            requires
                m + 1 == n,
        ;
        assert(m * dy(h) + dy(h) == n * dy(h)) by (nonlinear_arith)
            requires
                m + 1 == n,
        ;
        assert(-MAX_STRAIGHT_FRAMES * VELOCITY <= m * dx(h) <= MAX_STRAIGHT_FRAMES * VELOCITY)
            by (nonlinear_arith)
            requires
                m <= MAX_STRAIGHT_FRAMES,
                -VELOCITY <= dx(h) <= VELOCITY,
        ;
        assert(-MAX_STRAIGHT_FRAMES * VELOCITY <= m * dy(h) <= MAX_STRAIGHT_FRAMES * VELOCITY)
            by (nonlinear_arith)
            requires
                m <= MAX_STRAIGHT_FRAMES,
                -VELOCITY <= dy(h) <= VELOCITY,
        ;
    }
}

/// Most frames the self-clearance law below is stated for.
pub const MAX_CLEARANCE_FRAMES: u64 = 1048576;

proof fn lemma_dominant_axis(h: int)
    requires
        0 <= h < HEADINGS,
    ensures
        dx(h) >= 1593 || dx(h) <= -1593 || dy(h) >= 1593 || dy(h) <= -1593,
{
}

proof fn lemma_shifted_floor(a: int, o: int)
    ensures
        (a + o * SUBPIXELS) / (SUBPIXELS as int) == a / (SUBPIXELS as int) + o,
{
    let q = a / (SUBPIXELS as int);
    let r = a % (SUBPIXELS as int);
    vstd::arithmetic::div_mod::lemma_fundamental_div_mod(a, SUBPIXELS as int);
    vstd::arithmetic::div_mod::lemma_mod_bound(a, SUBPIXELS as int);
    assert(a + o * SUBPIXELS == (q + o) * SUBPIXELS + r) by (nonlinear_arith)
        requires
            a == SUBPIXELS * q + r,
    ;
    lemma_fundamental_div_mod_converse(a + o * SUBPIXELS, SUBPIXELS as int, q + o, r);
}

/// Two distances from an edge, both inside the play area and more than three
/// pixels apart, fall in different cells even after one of them moves by up
/// to two pixels.
proof fn lemma_cells_apart(a: int, c: int, o: int)
    requires
        a >= 0,
        c >= 0,
        a - c >= 3 * SUBPIXELS + 1 || c - a >= 3 * SUBPIXELS + 1,
        -2 <= o <= 2,
    ensures
        trunc_subpixels(a) != trunc_subpixels(c + o * SUBPIXELS),
{
    lemma_shifted_floor(c, o);
    lemma_shifted_floor(c, 3);
    lemma_shifted_floor(a, 3);
    if a - c >= 3 * SUBPIXELS + 1 {
        assert(a / (SUBPIXELS as int) >= (c + 3 * SUBPIXELS) / (SUBPIXELS as int));
    } else {
        assert(c / (SUBPIXELS as int) >= (a + 3 * SUBPIXELS) / (SUBPIXELS as int));
    }
}

/// Whether a centre lies right of the left edge and below the top edge, so
/// that its distances from both are not negative.
pub open spec fn inside_top_left(p: Vec2) -> bool {
    -(WIDTH / 2) * SUBPIXELS <= p.x && p.y <= (HEIGHT / 2) * SUBPIXELS
}

/// A snake moving in a straight line keeps clear of the bodies it drew two
/// or more frames earlier: after `f` frames its centre pixel is no pixel of
/// the body drawn after `g` frames, for `g + 2 <= f`, while both centres are
/// right of the left edge and below the top edge (the cells on those edges
/// are two pixels wide).
pub proof fn lemma_straight_centre_clears_old_body(s: Snake, g: nat, f: nat, ox: int, oy: int)
    requires
        s.wf(),
        g + 2 <= f <= MAX_CLEARANCE_FRAMES,
        -SNAKE_RADIUS <= ox < SNAKE_RADIUS,
        -SNAKE_RADIUS <= oy < SNAKE_RADIUS,
        in_body((ox, oy)),
        inside_top_left(translated_times(s, g).position),
        inside_top_left(translated_times(s, f).position),
    ensures
        translated_times(s, g).body_pixel((ox, oy)) != translated_times(s, f).center(),
{
    let h = s.heading as int;
    lemma_straight_line(s, g);
    lemma_straight_line(s, f);
    lemma_step_bounds(h);
    lemma_dominant_axis(h);
    assert(-2 <= ox <= 2 && -2 <= oy <= 2) by (nonlinear_arith)
        requires
            -3 <= ox < 3,
            -3 <= oy < 3,
            ox * ox + oy * oy < 9,
    ;
    let xg = s.position.x + g * dx(h);
    let yg = s.position.y + g * dy(h);
    let xf = s.position.x + f * dx(h);
    let yf = s.position.y + f * dy(h);
    let d = f - g;
    assert(xf - xg == d * dx(h)) by (nonlinear_arith)
        requires
            xf == s.position.x + f * dx(h),
            xg == s.position.x + g * dx(h),
            d == f - g,
    ;
    assert(yf - yg == d * dy(h)) by (nonlinear_arith)
        requires
            yf == s.position.y + f * dy(h),
            yg == s.position.y + g * dy(h),
            d == f - g,
    ;
    assert(-MAX_CLEARANCE_FRAMES * VELOCITY <= g * dx(h) <= MAX_CLEARANCE_FRAMES * VELOCITY
        && -MAX_CLEARANCE_FRAMES * VELOCITY <= f * dx(h) <= MAX_CLEARANCE_FRAMES * VELOCITY
        && -MAX_CLEARANCE_FRAMES * VELOCITY <= g * dy(h) <= MAX_CLEARANCE_FRAMES * VELOCITY
        && -MAX_CLEARANCE_FRAMES * VELOCITY <= f * dy(h) <= MAX_CLEARANCE_FRAMES * VELOCITY)
        by (nonlinear_arith)
        requires
            g <= MAX_CLEARANCE_FRAMES,
            f <= MAX_CLEARANCE_FRAMES,
            -VELOCITY <= dx(h) <= VELOCITY,
            -VELOCITY <= dy(h) <= VELOCITY,
    ;
    if dx(h) >= 1593 {
        assert(d * dx(h) >= 2 * 1593) by (nonlinear_arith)
            requires
                d >= 2,
                dx(h) >= 1593,
        ;
    } else if dx(h) <= -1593 {
        assert(d * dx(h) <= -2 * 1593) by (nonlinear_arith)
            requires
                d >= 2,
                dx(h) <= -1593,
        ;
    } else if dy(h) >= 1593 {
        assert(d * dy(h) >= 2 * 1593) by (nonlinear_arith)
            requires
                d >= 2,
                dy(h) >= 1593,
        ;
    } else {
        assert(d * dy(h) <= -2 * 1593) by (nonlinear_arith)
            requires
                d >= 2,
                dy(h) <= -1593,
        ;
    }
    let half_w = (WIDTH / 2) * SUBPIXELS;
    let half_h = (HEIGHT / 2) * SUBPIXELS;
    if xf - xg >= 3 * SUBPIXELS + 1 || xg - xf >= 3 * SUBPIXELS + 1 {
        lemma_cells_apart(xf + half_w, xg + half_w, ox);
        assert(xg + ox * SUBPIXELS + half_w == (xg + half_w) + ox * SUBPIXELS);
    } else {
        lemma_cells_apart(-yf + half_h, -yg + half_h, -oy);
        assert(-(yg + oy * SUBPIXELS) + half_h == (-yg + half_h) + (-oy) * SUBPIXELS);
    }
}

/// Turning left and then right, or right and then left, restores the heading.
pub proof fn lemma_turn_reversible(s: Snake)
    requires
        s.wf(),
    ensures
        s.turned(TurnDirection::Left).turned(TurnDirection::Right) == s,
        s.turned(TurnDirection::Right).turned(TurnDirection::Left) == s,
{
}

/// One player's snake: centre in world fixed-point units, heading in steps
/// of `HEADINGS` per turn, and the colour of its trail.
#[derive(Clone, Copy, Debug, PartialEq, Eq, Structural)]
pub struct Snake {
    pub position: Vec2,
    pub heading: u32,
    pub colour: Colour,
}

impl Snake {
    pub open spec fn wf(self) -> bool {
        &&& self.heading < HEADINGS
        &&& position_ok(self.position.x as int)
        &&& position_ok(self.position.y as int)
    }

    /// The snake one frame further along its heading.
    pub open spec fn translated(self) -> Snake {
        Snake {
            position: Vec2 {
                x: (self.position.x + dx(self.heading as int)) as i64,
                y: (self.position.y + dy(self.heading as int)) as i64,
            },
            ..self
        }
    }

    /// The snake turned by one heading step.
    pub open spec fn turned(self, direction: TurnDirection) -> Snake {
        Snake {
            heading: match direction {
                TurnDirection::Left => ((self.heading + 1) % HEADINGS as int) as u32,
                TurnDirection::Right => ((self.heading + HEADINGS - 1) % HEADINGS as int) as u32,
            },
            ..self
        }
    }

    /// The pixel under the snake's centre.
    pub open spec fn center(self) -> Pixel {
        self.position.pixel()
    }

    /// The pixel of the body at a pixel offset from the centre.
    pub open spec fn body_pixel(self, o: (int, int)) -> Pixel {
        Vec2 {
            x: (self.position.x + o.0 * SUBPIXELS) as i64,
            y: (self.position.y + o.1 * SUBPIXELS) as i64,
        }.pixel()
    }

    /// The body drawn over the first `k` steps of the scan.
    pub open spec fn body_scan(self, k: int) -> Seq<(Pixel, Colour)>
        decreases k,
    {
        if k <= 0 {
            Seq::empty()
        } else {
            let prev = self.body_scan(k - 1);
            if in_body(scan_offset(k - 1)) {
                prev.push((self.body_pixel(scan_offset(k - 1)), self.colour))
            } else {
                prev
            }
        }
    }

    /// The snake's body: every pixel within its radius, with its colour.
    pub open spec fn body(self) -> Seq<(Pixel, Colour)> {
        self.body_scan(scan_side() * scan_side())
    }

    /// Whether the centre lies on a pixel that holds trail.
    pub open spec fn hits_trail(self, trails: TrailBitmap) -> bool {
        self.center().in_bounds() && trails.cell(self.center()) is Some
    }

    /// A snake; the heading is taken modulo a full turn.
    pub fn new(position: Vec2, heading: u32, colour: Colour) -> (r: Snake)
        ensures
            r == (Snake { position, heading: heading % HEADINGS, colour }),
    {
        Snake { position, heading: heading % HEADINGS, colour }
    }

    pub fn colour(&self) -> (r: Colour)
        ensures
            r == self.colour,
    {
        self.colour
    }

    pub fn position(&self) -> (r: Vec2)
        ensures
            r == self.position,
    {
        self.position
    }

    pub fn heading(&self) -> (r: u32)
        ensures
            r == self.heading,
    {
        self.heading
    }

    /// Moves the snake one frame along its heading.
    pub fn translate(&mut self)
        requires
            old(self).wf(),
        ensures
            *final(self) == old(self).translated(),
    {
        let sx = step_x(self.heading);
        let sy = step_y(self.heading);
        self.position = Vec2 { x: self.position.x + sx, y: self.position.y + sy };
    }

    /// Turns the snake one heading step: counter-clockwise for `Left`.
    pub fn turn(&mut self, direction: TurnDirection)
        requires
            old(self).wf(),
        ensures
            *final(self) == old(self).turned(direction),
            final(self).wf(),
    {
        self.heading = match direction {
            TurnDirection::Left => (self.heading + 1) % HEADINGS,
            TurnDirection::Right => (self.heading + HEADINGS - 1) % HEADINGS,
        };
    }

    /// The pixels of the body, scanning the square of offsets around the
    /// centre and keeping those within the radius.
    pub fn draw(&self) -> (r: Vec<(Pixel, Colour)>)
        requires
            self.wf(),
        ensures
            r@ == self.body(),
    {
        let mut r: Vec<(Pixel, Colour)> = Vec::new();
        let mut x: i64 = -SNAKE_RADIUS;
        while x < SNAKE_RADIUS
            invariant
                self.wf(),
                -SNAKE_RADIUS <= x <= SNAKE_RADIUS,
                r@ == self.body_scan((x + SNAKE_RADIUS) * scan_side()),
            decreases SNAKE_RADIUS - x,
        {
            let mut y: i64 = -SNAKE_RADIUS;
            while y < SNAKE_RADIUS
                invariant
                    self.wf(),
                    -SNAKE_RADIUS <= x < SNAKE_RADIUS,
                    -SNAKE_RADIUS <= y <= SNAKE_RADIUS,
                    r@ == self.body_scan((x + SNAKE_RADIUS) * scan_side() + (y + SNAKE_RADIUS)),
                decreases SNAKE_RADIUS - y,
            {
                let ghost k = (x + SNAKE_RADIUS) * scan_side() + (y + SNAKE_RADIUS);
                proof {
                    lemma_fundamental_div_mod_converse(k, scan_side(), x + SNAKE_RADIUS, y + SNAKE_RADIUS);
                    assert(0 <= x * x <= 9) by (nonlinear_arith)
                        requires
                            -3 <= x <= 3,
                    ;
                    assert(0 <= y * y <= 9) by (nonlinear_arith)
                        requires
                            -3 <= y <= 3,
                    ;
                }
                assert(scan_offset(k) == (x as int, y as int));
                if x * x + y * y < SNAKE_RADIUS * SNAKE_RADIUS {
                    let offset = Vec2 { x: x * SUBPIXELS, y: y * SUBPIXELS };
                    let p = self.position.add(&offset).to_pixel();
                    r.push((p, self.colour));
                }
                y = y + 1;
            }
            assert((x + SNAKE_RADIUS) * scan_side() + (y + SNAKE_RADIUS) == (x + 1 + SNAKE_RADIUS)
                * scan_side()) by (nonlinear_arith)
                requires
                    y == SNAKE_RADIUS,
                    scan_side() == 6,
            ;
            x = x + 1;
        }
        r
    }

    /// Marks the body's in-bounds pixels in the bitmap at once.
    pub fn add_trail(&self, trails: &mut TrailBitmap)
        requires
            self.wf(),
            old(trails).wf(),
        ensures
            final(trails).wf(),
            final(trails)@ == marked_all(old(trails)@, trail_entries(self.body(), 0)),
    {
        let points = self.draw();
        let ghost t0 = trails@;
        let mut i: usize = 0;
        while i < points.len()
            invariant
                trails.wf(),
                i <= points@.len(),
                points@ == self.body(),
                trails@ == marked_all(t0, trail_entries(points@.subrange(0, i as int), 0)),
            decreases points@.len() - i,
        {
            let (p, c) = points[i];
            proof {
                assert(points@.subrange(0, i + 1).drop_last() == points@.subrange(0, i as int));
            }
            if p.is_in_bounds() {
                trails.set_if_empty(p, c);
                proof {
                    let prev = trail_entries(points@.subrange(0, i as int), 0);
                    let e = TrailEntry { pixel: p, colour: c, frame: 0 };
                    assert(prev.push(e).drop_last() == prev);
                }
            }
            i = i + 1;
        }
        proof {
            assert(points@.subrange(0, points@.len() as int) == points@);
        }
    }

    /// Appends the body's in-bounds pixels to the queue, tagged with `frame`.
    pub fn add_trail_to_queue(&self, frame: u64, trail_queue: &mut TrailQueue)
        requires
            self.wf(),
            old(trail_queue).wf(),
            old(trail_queue).accepts(frame),
        ensures
            final(trail_queue).wf(),
            final(trail_queue).accepts(frame),
            final(trail_queue)@ == old(trail_queue)@ + trail_entries(self.body(), frame),
    {
        let points = self.draw();
        let ghost q0 = trail_queue@;
        let mut i: usize = 0;
        while i < points.len()
            invariant
                trail_queue.wf(),
                trail_queue.accepts(frame),
                i <= points@.len(),
                points@ == self.body(),
                trail_queue@ == q0 + trail_entries(points@.subrange(0, i as int), frame),
            decreases points@.len() - i,
        {
            let (p, c) = points[i];
            proof {
                assert(points@.subrange(0, i + 1).drop_last() == points@.subrange(0, i as int));
            }
            if p.is_in_bounds() {
                trail_queue.enqueue(TrailEntry { pixel: p, colour: c, frame });
                assert(q0 + trail_entries(points@.subrange(0, i + 1), frame)
                    == (q0 + trail_entries(points@.subrange(0, i as int), frame)).push(
                    TrailEntry { pixel: p, colour: c, frame }));
            }
            i = i + 1;
        }
        proof {
            assert(points@.subrange(0, points@.len() as int) == points@);
        }
    }

    /// Whether the centre pixel holds trail; a centre outside the play area
    /// is no trail hit.
    pub fn detect_trail_hit(&self, trails: &TrailBitmap) -> (r: bool)
        requires
            self.wf(),
            trails.wf(),
        ensures
            r == self.hits_trail(*trails),
    {
        let p = self.position.to_pixel();
        if !p.is_in_bounds() {
            return false;
        }
        trails.get(p).is_some()
    }
}

} // verus!
