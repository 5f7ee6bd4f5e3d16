//! A point mass, and what one tick does to it.

use crate::jitter::JitterSource;
use vstd::prelude::*;
use crate::fixed::{
    bounded, floor_sqrt, magnitude, pixels, root, root_covers_legs, saturate, saturated, scale,
    scaled, toward_zero, wide_pixels, UNIT, WIDE_UNIT,
};

verus! {

/// A point mass: a position and a momentum, each in raw steps.
#[derive(Clone, Copy, Debug, PartialEq, Eq, Structural)]
pub struct Particle {
    pub x_pos: i64,
    pub y_pos: i64,
    pub x_momentum: i64,
    pub y_momentum: i64,
}

/// The particle at rest in the canvas's corner.
pub open spec fn at_rest() -> Particle {
    Particle { x_pos: 0, y_pos: 0, x_momentum: 0, y_momentum: 0 }
}

/// A particle at rest in the canvas's corner.
pub fn new() -> (p: Particle)
    ensures
        p == at_rest(),
{
    Particle { x_pos: 0, y_pos: 0, x_momentum: 0, y_momentum: 0 }
}

/// The square of the distance between two particles.
pub open spec fn gap_squared(p: Particle, other: Particle) -> int {
    (p.x_pos - other.x_pos) * (p.x_pos - other.x_pos) + (p.y_pos - other.y_pos) * (p.y_pos
        - other.y_pos)
}

/// The two particles are no further apart than `radius`.
pub open spec fn touching(p: Particle, other: Particle, radius: int) -> bool {
    radius >= 0 && gap_squared(p, other) <= radius * radius
}

/// The two particles are closer than `radius`.
pub open spec fn overlapping(p: Particle, other: Particle, radius: int) -> bool {
    radius > 0 && gap_squared(p, other) < radius * radius
}

/// `p` after a collision with `other` that shifts it by whole pixels.
///
/// The momentum is the other's with its components exchanged.
pub open spec fn collided(p: Particle, other: Particle, shift_x: int, shift_y: int) -> Particle {
    Particle {
        x_pos: saturated(p.x_pos + pixels(shift_x)) as i64,
        y_pos: saturated(p.y_pos + pixels(shift_y)) as i64,
        x_momentum: other.y_momentum,
        y_momentum: other.x_momentum,
    }
}

/// `q` is `p` after a collision with `other` whose shifts, one for each axis,
/// are whole pixels between `-range` and `range`.
pub open spec fn jolted(p: Particle, other: Particle, range: int, q: Particle) -> bool {
    exists|shift_x: int, shift_y: int|
        -range <= shift_x <= range && -range <= shift_y <= range && q == #[trigger] collided(
            p,
            other,
            shift_x,
            shift_y,
        )
}

/// A free move from `position` by `momentum` would end outside `0..=bound`.
pub open spec fn leaves(position: int, momentum: int, bound: int) -> bool {
    position + momentum < 0 || position + momentum > bound
}

/// The position on one axis after a move that the walls at `0` and `bound` stop.
pub open spec fn axis_position(position: int, momentum: int, bound: int) -> int {
    bounded(position + momentum, 0, bound)
}

/// The momentum on one axis after drag, and after the wall where the move met it.
pub open spec fn axis_momentum(
    position: int,
    momentum: int,
    drag: int,
    bounciness: int,
    bound: int,
) -> int {
    let slowed = scaled(momentum, UNIT - drag);
    if leaves(position, momentum, bound) {
        scaled(slowed, -bounciness)
    } else {
        slowed
    }
}

/// The distance that belongs to an offset of `dx` and `dy`, rounded down.
pub open spec fn distance(dx: int, dy: int) -> int {
    root(dx * dx + dy * dy)
}

/// The share of `gravity` that falls on an axis with offset `offset`, where the
/// pointer is `distance` away. At the pointer itself nothing pulls.
pub open spec fn pull(gravity: int, offset: int, distance: int) -> int {
    if distance == 0 {
        0
    } else {
        toward_zero(gravity * offset, distance)
    }
}

/// `p` after one tick of motion: move, drag, walls, then the pointer's pull.
pub open spec fn updated(
    p: Particle,
    grav_x: int,
    grav_y: int,
    space_drag: int,
    wall_bounciness: int,
    window_width: int,
    window_height: int,
    gravity: int,
) -> Particle {
    let x = axis_position(p.x_pos as int, p.x_momentum as int, pixels(window_width));
    let y = axis_position(p.y_pos as int, p.y_momentum as int, pixels(window_height));
    let vx = axis_momentum(
        p.x_pos as int,
        p.x_momentum as int,
        space_drag,
        wall_bounciness,
        pixels(window_width),
    );
    let vy = axis_momentum(
        p.y_pos as int,
        p.y_momentum as int,
        space_drag,
        wall_bounciness,
        pixels(window_height),
    );
    let dx = x - pixels(grav_x);
    let dy = y - pixels(grav_y);
    let far = distance(dx, dy);
    Particle {
        x_pos: x as i64,
        y_pos: y as i64,
        x_momentum: saturated(vx - pull(gravity, dx, far)) as i64,
        y_momentum: saturated(vy - pull(gravity, dy, far)) as i64,
    }
}

/// Moves one axis: the new position and the new momentum.
fn advance_axis(position: i64, momentum: i64, drag: i64, bounciness: i64, extent: u32) -> (r: (
    i64,
    i64,
))
    ensures
        r.0 == axis_position(position as int, momentum as int, pixels(extent as int)),
        r.1 == axis_momentum(
            position as int,
            momentum as int,
            drag as int,
            bounciness as int,
            pixels(extent as int),
        ),
{
    let bound: i128 = wide_pixels(extent as i64);
    let target: i128 = position as i128 + momentum as i128;
    let slowed: i64 = scale(momentum, WIDE_UNIT - drag as i128);
    if target < 0 {
        (0, scale(slowed, -(bounciness as i128)))
    } else if target > bound {
        (bound as i64, scale(slowed, -(bounciness as i128)))
    } else {
        (target as i64, slowed)
    }
}

/// The size of a difference of two stored values.
fn span(a: i64, b: i64) -> (r: u128)
    ensures
        r == magnitude(a - b),
{
    let d: i128 = a as i128 - b as i128;
    if d < 0 {
        (-d) as u128
    } else {
        d as u128
    }
}

/// The square of the distance between two particles, where neither leg of it
/// is longer than `limit`.
fn near_gap(p: &Particle, other: &Particle, limit: u64) -> (r: Option<u128>)
    requires
        limit <= 0x7fff_ffff_ffff_ffff,
    ensures
        match r {
            Some(g) => g == gap_squared(*p, *other),
            None => gap_squared(*p, *other) > limit * limit,
        },
{
    let across: u128 = span(p.x_pos, other.x_pos);
    let down: u128 = span(p.y_pos, other.y_pos);
    proof {
        let dx = p.x_pos - other.x_pos;
        let dy = p.y_pos - other.y_pos;
        assert(across * across == dx * dx) by (nonlinear_arith)
            requires
                across == dx || across == -dx,
        ;
        assert(down * down == dy * dy) by (nonlinear_arith)
            requires
                down == dy || down == -dy,
        ;
        assert(across * across >= 0) by (nonlinear_arith);
        assert(down * down >= 0) by (nonlinear_arith);
        if across > limit {
            assert(across * across > limit * limit) by (nonlinear_arith)
                requires
                    across > limit >= 0,
            ;
        }
        if down > limit {
            assert(down * down > limit * limit) by (nonlinear_arith)
                requires
                    down > limit >= 0,
            ;
        }
        if across <= limit {
            assert(across * across <= limit * limit) by (nonlinear_arith)
                requires
                    0 <= across <= limit,
            ;
        }
        if down <= limit {
            assert(down * down <= limit * limit) by (nonlinear_arith)
                requires
                    0 <= down <= limit,
            ;
        }
        assert(limit * limit <= 0x7fff_ffff_ffff_ffff * 0x7fff_ffff_ffff_ffff) by (nonlinear_arith)
            requires
                0 <= limit <= 0x7fff_ffff_ffff_ffff,
        ;
    }
    if across > limit as u128 || down > limit as u128 {
        None
    } else {
        Some(across * across + down * down)
    }
}

impl Particle {
    /// Whether `other` is no further away than `radius`.
    pub fn touches(&self, other: &Particle, radius: i64) -> (hit: bool)
        ensures
            hit == touching(*self, *other, radius as int),
    {
        if radius < 0 {
            return false;
        }
        match near_gap(self, other, radius as u64) {
            Some(gap) => {
                let wide: u128 = radius as u128;
                assert(wide * wide <= 0x7fff_ffff_ffff_ffff * 0x7fff_ffff_ffff_ffff)
                    by (nonlinear_arith)
                    requires
                        0 <= wide <= 0x7fff_ffff_ffff_ffff,
                ;
                gap <= wide * wide
            },
            None => false,
        }
    }

    /// Whether `other` is closer than `radius`.
    pub fn overlaps(&self, other: &Particle, radius: i64) -> (hit: bool)
        ensures
            hit == overlapping(*self, *other, radius as int),
    {
        if radius <= 0 {
            return false;
        }
        match near_gap(self, other, radius as u64) {
            Some(gap) => {
                let wide: u128 = radius as u128;
                assert(wide * wide <= 0x7fff_ffff_ffff_ffff * 0x7fff_ffff_ffff_ffff)
                    by (nonlinear_arith)
                    requires
                        0 <= wide <= 0x7fff_ffff_ffff_ffff,
                ;
                gap < wide * wide
            },
            None => false,
        }
    }

    /// Collides with `other` and shifts by the given whole pixels.
    pub fn collide_shifted(&mut self, other: Particle, shift_x: i64, shift_y: i64)
        ensures
            *final(self) == collided(*old(self), other, shift_x as int, shift_y as int),
    {
        self.x_momentum = other.y_momentum;
        self.y_momentum = other.x_momentum;
        self.x_pos = saturate(self.x_pos as i128 + wide_pixels(shift_x));
        self.y_pos = saturate(self.y_pos as i128 + wide_pixels(shift_y));
    }

    /// Collides with `other`: takes its momentum with the components exchanged,
    /// and shifts on each axis by what `jitter` draws.
    pub fn collide_with(&mut self, other: Particle, jitter: &mut JitterSource)
        ensures
            jolted(*old(self), other, old(jitter).limit() as int, *final(self)),
            old(jitter).limit() == 0 ==> *final(self) == collided(*old(self), other, 0, 0),
            final(jitter).limit() == old(jitter).limit(),
    {
        let shift_x: i64 = jitter.draw();
        let shift_y: i64 = jitter.draw();
        self.collide_shifted(other, shift_x, shift_y);
    }

    /// Advances the particle by one tick: it moves by its momentum, drag slows
    /// it, the canvas walls stop and reflect it, and the pointer pulls it.
    pub fn update(
        &mut self,
        grav_x: i32,
        grav_y: i32,
        space_drag: i64,
        wall_bounciness: i64,
        window_width: u32,
        window_height: u32,
        gravity: i64,
    )
        ensures
            *final(self) == updated(
                *old(self),
                grav_x as int,
                grav_y as int,
                space_drag as int,
                wall_bounciness as int,
                window_width as int,
                window_height as int,
                gravity as int,
            ),
            0 <= final(self).x_pos <= pixels(window_width as int),
            0 <= final(self).y_pos <= pixels(window_height as int),
    {
        let (x, vx) = advance_axis(
            self.x_pos,
            self.x_momentum,
            space_drag,
            wall_bounciness,
            window_width,
        );
        let (y, vy) = advance_axis(
            self.y_pos,
            self.y_momentum,
            space_drag,
            wall_bounciness,
            window_height,
        );
        let dx: i128 = x as i128 - wide_pixels(grav_x as i64);
        let dy: i128 = y as i128 - wide_pixels(grav_y as i64);
        assert(dx * dx <= 0x20_0000_0000_0000 * 0x20_0000_0000_0000 && dx * dx >= 0)
            by (nonlinear_arith)
            requires
                -0x20_0000_0000_0000 <= dx <= 0x20_0000_0000_0000,
        ;
        assert(dy * dy <= 0x20_0000_0000_0000 * 0x20_0000_0000_0000 && dy * dy >= 0)
            by (nonlinear_arith)
            requires
                -0x20_0000_0000_0000 <= dy <= 0x20_0000_0000_0000,
        ;
        let far: u64 = floor_sqrt((dx * dx + dy * dy) as u128);
        self.x_pos = x;
        self.y_pos = y;
        if far == 0 {
            self.x_momentum = vx;
            self.y_momentum = vy;
        } else {
            let wide: i128 = gravity as i128;
            assert(-0x8000_0000_0000_0000 * 0x20_0000_0000_0000 <= wide * dx
                <= 0x8000_0000_0000_0000 * 0x20_0000_0000_0000) by (nonlinear_arith)
                requires
                    -0x20_0000_0000_0000 <= dx <= 0x20_0000_0000_0000,
                    -0x8000_0000_0000_0000 <= wide <= 0x8000_0000_0000_0000,
            ;
            assert(-0x8000_0000_0000_0000 * 0x20_0000_0000_0000 <= wide * dy
                <= 0x8000_0000_0000_0000 * 0x20_0000_0000_0000) by (nonlinear_arith)
                requires
                    -0x20_0000_0000_0000 <= dy <= 0x20_0000_0000_0000,
                    -0x8000_0000_0000_0000 <= wide <= 0x8000_0000_0000_0000,
            ;
            let pull_x: i128 = (wide * dx) / (far as i128);
            let pull_y: i128 = (wide * dy) / (far as i128);
            self.x_momentum = saturate(vx as i128 - pull_x);
            self.y_momentum = saturate(vy as i128 - pull_y);
        }
    }
}

/// A factor of at most one, in size, never makes a value larger. Where the
/// factor is not negative the product is exact: it needs no saturation.
pub proof fn scaling_shrinks(value: i64, factor: int)
    requires
        -UNIT <= factor <= UNIT,
    ensures
        magnitude(scaled(value as int, factor)) <= magnitude(value as int),
        factor >= 0 ==> scaled(value as int, factor) == toward_zero(value * factor, UNIT as int),
{
    quotient_is_bounded(value as int, factor, UNIT as int);
}

/// Where a particle meets no wall and there is no gravity, a tick leaves each
/// component of the momentum scaled by exactly `UNIT - space_drag` millionths,
/// and no larger in size than it was. This holds of every drag from nothing to
/// twice the whole; up to the whole, the scaled momentum is the exact product,
/// rounded towards zero.
pub proof fn drag_shrinks_momentum(
    p: Particle,
    grav_x: i32,
    grav_y: i32,
    space_drag: i64,
    wall_bounciness: i64,
    window_width: u32,
    window_height: u32,
)
    requires
        0 <= space_drag <= 2 * UNIT,
        !leaves(p.x_pos as int, p.x_momentum as int, pixels(window_width as int)),
        !leaves(p.y_pos as int, p.y_momentum as int, pixels(window_height as int)),
    ensures
        ({
            let q = updated(
                p,
                grav_x as int,
                grav_y as int,
                space_drag as int,
                wall_bounciness as int,
                window_width as int,
                window_height as int,
                0,
            );
            &&& q.x_momentum == scaled(p.x_momentum as int, UNIT - space_drag)
            &&& q.y_momentum == scaled(p.y_momentum as int, UNIT - space_drag)
            &&& space_drag <= UNIT ==> q.x_momentum == toward_zero(
                p.x_momentum * (UNIT - space_drag),
                UNIT as int,
            )
            &&& space_drag <= UNIT ==> q.y_momentum == toward_zero(
                p.y_momentum * (UNIT - space_drag),
                UNIT as int,
            )
            &&& magnitude(q.x_momentum as int) <= magnitude(p.x_momentum as int)
            &&& magnitude(q.y_momentum as int) <= magnitude(p.y_momentum as int)
        }),
{
    scaling_shrinks(p.x_momentum, UNIT - space_drag);
    scaling_shrinks(p.y_momentum, UNIT - space_drag);
    let x = axis_position(p.x_pos as int, p.x_momentum as int, pixels(window_width as int));
    let y = axis_position(p.y_pos as int, p.y_momentum as int, pixels(window_height as int));
    let dx = x - pixels(grav_x as int);
    let dy = y - pixels(grav_y as int);
    let far = distance(dx, dy);
    root_covers_legs(dx, dy);
    if far != 0 {
        assert(0 * dx == 0 && 0 * dy == 0);
        assert(0int / far == 0) by (nonlinear_arith)
            requires
                far > 0,
        ;
    }
}

/// Wherever a particle starts and however fast it is, after a tick of motion
/// it lies on the canvas, on each axis between zero and that axis's own bound.
pub proof fn walls_contain(
    p: Particle,
    grav_x: i32,
    grav_y: i32,
    space_drag: i64,
    wall_bounciness: i64,
    window_width: u32,
    window_height: u32,
    gravity: i64,
)
    ensures
        ({
            let q = updated(
                p,
                grav_x as int,
                grav_y as int,
                space_drag as int,
                wall_bounciness as int,
                window_width as int,
                window_height as int,
                gravity as int,
            );
            &&& 0 <= q.x_pos <= pixels(window_width as int)
            &&& 0 <= q.y_pos <= pixels(window_height as int)
        }),
{
}

/// Where the move ends exactly on the pointer, gravity changes nothing: the
/// tick is the one that no gravity would give.
pub proof fn no_pull_at_pointer(
    p: Particle,
    grav_x: i32,
    grav_y: i32,
    space_drag: i64,
    wall_bounciness: i64,
    window_width: u32,
    window_height: u32,
    gravity: i64,
)
    requires
        axis_position(p.x_pos as int, p.x_momentum as int, pixels(window_width as int)) == pixels(
            grav_x as int,
        ),
        axis_position(p.y_pos as int, p.y_momentum as int, pixels(window_height as int)) == pixels(
            grav_y as int,
        ),
    ensures
        updated(
            p,
            grav_x as int,
            grav_y as int,
            space_drag as int,
            wall_bounciness as int,
            window_width as int,
            window_height as int,
            gravity as int,
        ) == updated(
            p,
            grav_x as int,
            grav_y as int,
            space_drag as int,
            wall_bounciness as int,
            window_width as int,
            window_height as int,
            0,
        ),
{
    root_covers_legs(0, 0);
}

/// The pull on an axis is never stronger than gravity itself.
pub proof fn pull_is_bounded(gravity: i64, dx: int, dy: int)
    ensures
        magnitude(pull(gravity as int, dx, distance(dx, dy))) <= magnitude(gravity as int),
        magnitude(pull(gravity as int, dy, distance(dx, dy))) <= magnitude(gravity as int),
{
    root_covers_legs(dx, dy);
    let far = distance(dx, dy);
    if far != 0 {
        quotient_is_bounded(gravity as int, dx, far);
        quotient_is_bounded(gravity as int, dy, far);
    }
}

/// Where `offset` is no larger than `far` in size, `weight * offset / far` is
/// no larger than `weight` in size.
proof fn quotient_is_bounded(weight: int, offset: int, far: int)
    requires
        far > 0,
        magnitude(offset) <= far,
    ensures
        magnitude(toward_zero(weight * offset, far)) <= magnitude(weight),
{
    let product = weight * offset;
    let size = magnitude(weight);
    assert(-(size * far) <= product <= size * far) by (nonlinear_arith)
        requires
            product == weight * offset,
            -far <= offset <= far,
            size == weight || size == -weight,
            size >= 0,
    ;
    let top = magnitude(product);
    assert(top / far <= size) by (nonlinear_arith)
        requires
            0 <= top <= size * far,
            far > 0,
    ;
}

} // verus!
