//! The population, and one tick of it.
//!
//! A tick copies the population into a snapshot, moves the pointer, and then
//! advances the particles one by one. A particle meets the others as the
//! snapshot shows them, never as the tick has left them so far, so the order in
//! which the particles are advanced does not matter.

use crate::fixed::{
    from_pixels, magnitude, pixel_of, pixels, saturate, saturated, scaled, to_pixel, UNIT,
};
use crate::jitter::JitterSource;
use crate::particle::{
    at_rest, collided, drag_shrinks_momentum, leaves, overlapping, touching, updated, Particle,
};
use vstd::prelude::*;

verus! {

/// What a simulation is made with.
#[derive(Clone, Copy, Debug, PartialEq, Eq, Structural)]
pub struct Config {
    /// The number of particles.
    pub population: usize,
    /// Whether a population of no particles is accepted.
    pub allow_empty: bool,
    /// The canvas's width, in pixels.
    pub width: u32,
    /// The canvas's height, in pixels.
    pub height: u32,
    /// Two particles collide when no further apart than this, in raw steps.
    pub particle_radius: i64,
    /// A particle collides with the pointer when closer than this, in raw steps.
    pub pointer_radius: i64,
    /// The share of its momentum that a particle loses in a tick, in millionths.
    pub drag: i64,
    /// The share of its momentum that a particle keeps at a wall, in millionths.
    pub bounciness: i64,
    /// The pull of the pointer in a tick, in raw steps.
    pub gravity: i64,
}

/// Why a configuration was turned down.
#[derive(Clone, Copy, Debug, PartialEq, Eq, Structural)]
pub enum ConfigError {
    /// There are no particles, and the configuration does not allow that.
    EmptyPopulation,
    /// The canvas has no width or no height.
    EmptyCanvas,
    /// The layout does not hold one place for each particle.
    LayoutMismatch,
}

/// The first fault of a configuration and a layout of `places` places, if any.
pub open spec fn rejection(config: Config, places: nat) -> Option<ConfigError> {
    if config.population == 0 && !config.allow_empty {
        Some(ConfigError::EmptyPopulation)
    } else if config.width == 0 || config.height == 0 {
        Some(ConfigError::EmptyCanvas)
    } else if places != config.population {
        Some(ConfigError::LayoutMismatch)
    } else {
        None
    }
}

impl ConfigError {
    /// The fault in words.
    pub fn describe(&self) -> (text: &'static str)
        ensures
            text@ == match *self {
                ConfigError::EmptyPopulation => "the population is empty"@,
                ConfigError::EmptyCanvas => "the canvas has no area"@,
                ConfigError::LayoutMismatch => "the layout does not match the population"@,
            },
    {
        match self {
            ConfigError::EmptyPopulation => "the population is empty",
            ConfigError::EmptyCanvas => "the canvas has no area",
            ConfigError::LayoutMismatch => "the layout does not match the population",
        }
    }
}

/// The state between two ticks, as plain values.
pub struct Frame {
    pub config: Config,
    pub particles: Seq<Particle>,
    pub snapshot: Seq<Particle>,
    pub pointer: Particle,
}

/// A particle at rest at a raw position.
pub open spec fn placed(place: (i64, i64)) -> Particle {
    Particle { x_pos: place.0, y_pos: place.1, x_momentum: 0, y_momentum: 0 }
}

/// The state that a layout starts from: each particle at rest in its place,
/// the snapshot equal to the population, the pointer at rest in the corner.
pub open spec fn initial(config: Config, layout: Seq<(i64, i64)>) -> Frame {
    Frame {
        config,
        particles: Seq::new(layout.len(), |i: int| placed(layout[i])),
        snapshot: Seq::new(layout.len(), |i: int| placed(layout[i])),
        pointer: at_rest(),
    }
}

/// The pointer after it was seen at pixel `(x, y)`: its momentum is the way
/// it has come since it was last seen.
pub open spec fn moved_pointer(pointer: Particle, x: int, y: int) -> Particle {
    Particle {
        x_pos: pixels(x) as i64,
        y_pos: pixels(y) as i64,
        x_momentum: saturated(pixels(x) - pointer.x_pos) as i64,
        y_momentum: saturated(pixels(y) - pointer.y_pos) as i64,
    }
}

/// Both parts of a shift lie between `-range` and `range`.
pub open spec fn inside(shift: (int, int), range: int) -> bool {
    -range <= shift.0 <= range && -range <= shift.1 <= range
}

/// `shifts` holds `count` shifts, each between `-range` and `range`.
pub open spec fn shifts_within(shifts: Seq<(int, int)>, count: nat, range: int) -> bool {
    shifts.len() == count && forall|j: int| 0 <= j < count ==> inside(#[trigger] shifts[j], range)
}

/// `p`, the particle in slot `slot`, after it has met the first `upto`
/// particles of the snapshot in turn. Where it collides with the one in slot
/// `j`, the collision shifts it by `shifts[j]`; each later particle is met from
/// where the earlier collisions have left `p`, and the last collision decides
/// the momentum.
pub open spec fn met(
    p: Particle,
    slot: int,
    snapshot: Seq<Particle>,
    radius: int,
    shifts: Seq<(int, int)>,
    upto: int,
) -> Particle
    decreases upto,
{
    if upto <= 0 {
        p
    } else {
        let q = met(p, slot, snapshot, radius, shifts, upto - 1);
        let j = upto - 1;
        if j != slot && touching(q, snapshot[j], radius) {
            collided(q, snapshot[j], shifts[j].0, shifts[j].1)
        } else {
            q
        }
    }
}

/// `p` after a collision with the pointer, where it is close enough for one.
pub open spec fn met_pointer(p: Particle, pointer: Particle, radius: int, shift: (int, int)) -> Particle {
    if overlapping(p, pointer, radius) {
        collided(p, pointer, shift.0, shift.1)
    } else {
        p
    }
}

/// `p`, the particle in slot `slot`, after one tick: it meets every other
/// particle of the snapshot, then the pointer, then moves. `shifts` holds one
/// shift for each slot of the snapshot and, last, one for the pointer.
pub open spec fn advanced(
    p: Particle,
    slot: int,
    snapshot: Seq<Particle>,
    pointer: Particle,
    config: Config,
    shifts: Seq<(int, int)>,
) -> Particle {
    let count = snapshot.len() as int;
    let q = met(p, slot, snapshot, config.particle_radius as int, shifts, count);
    let r = met_pointer(q, pointer, config.pointer_radius as int, shifts[count]);
    updated(
        r,
        pixel_of(pointer.x_pos as int),
        pixel_of(pointer.y_pos as int),
        config.drag as int,
        config.bounciness as int,
        config.width as int,
        config.height as int,
        config.gravity as int,
    )
}

/// `q` is what a tick can make of `p` in slot `slot`, with shifts between
/// `-range` and `range`.
pub open spec fn reaches(
    p: Particle,
    slot: int,
    snapshot: Seq<Particle>,
    pointer: Particle,
    config: Config,
    range: int,
    q: Particle,
) -> bool {
    exists|shifts: Seq<(int, int)>|
        #[trigger] shifts_within(shifts, snapshot.len() + 1, range) && q == advanced(
            p,
            slot,
            snapshot,
            pointer,
            config,
            shifts,
        )
}

/// `met` reads no shift from slot `upto` on.
pub proof fn met_reads_prefix(
    p: Particle,
    slot: int,
    snapshot: Seq<Particle>,
    radius: int,
    a: Seq<(int, int)>,
    b: Seq<(int, int)>,
    upto: int,
)
    requires
        forall|k: int| 0 <= k < upto ==> a[k] == b[k],
    ensures
        met(p, slot, snapshot, radius, a, upto) == met(p, slot, snapshot, radius, b, upto),
    decreases upto,
{
    if upto > 0 {
        met_reads_prefix(p, slot, snapshot, radius, a, b, upto - 1);
    }
}

/// `post` is what one tick can make of `pre` when the pointer is seen at
/// pixel `(x, y)` and the shifts lie between `-range` and `range`.
pub open spec fn ticked(pre: Frame, x: int, y: int, range: int, post: Frame) -> bool {
    &&& post.config == pre.config
    &&& post.snapshot == pre.particles
    &&& post.pointer == moved_pointer(pre.pointer, x, y)
    &&& post.particles.len() == pre.particles.len()
    &&& forall|i: int|
        0 <= i < pre.particles.len() ==> reaches(
            pre.particles[i],
            i,
            pre.particles,
            post.pointer,
            pre.config,
            range,
            #[trigger] post.particles[i],
        )
}

/// `count` shifts of nothing.
pub open spec fn no_shifts(count: nat) -> Seq<(int, int)> {
    Seq::new(count, |j: int| (0int, 0int))
}

/// The state after one tick without jitter, when the pointer is seen at pixel
/// `(x, y)`.
pub open spec fn still_tick(pre: Frame, x: int, y: int) -> Frame {
    Frame {
        config: pre.config,
        particles: Seq::new(
            pre.particles.len(),
            |i: int|
                advanced(
                    pre.particles[i],
                    i,
                    pre.particles,
                    moved_pointer(pre.pointer, x, y),
                    pre.config,
                    no_shifts(pre.particles.len() + 1),
                ),
        ),
        snapshot: pre.particles,
        pointer: moved_pointer(pre.pointer, x, y),
    }
}

/// No other particle of the snapshot is within the collision radius of `p`,
/// the particle in slot `slot`, and the pointer is not either.
pub open spec fn untouched(
    p: Particle,
    slot: int,
    snapshot: Seq<Particle>,
    pointer: Particle,
    config: Config,
) -> bool {
    &&& forall|j: int|
        0 <= j < snapshot.len() && j != slot ==> !touching(
            p,
            #[trigger] snapshot[j],
            config.particle_radius as int,
        )
    &&& !overlapping(p, pointer, config.pointer_radius as int)
}

/// A particle that touches nothing meets the snapshot unchanged.
proof fn met_without_contact(
    p: Particle,
    slot: int,
    snapshot: Seq<Particle>,
    radius: int,
    shifts: Seq<(int, int)>,
    upto: int,
)
    requires
        upto <= snapshot.len(),
        forall|j: int|
            0 <= j < snapshot.len() && j != slot ==> !touching(p, #[trigger] snapshot[j], radius),
    ensures
        met(p, slot, snapshot, radius, shifts, upto) == p,
    decreases upto,
{
    if upto > 0 {
        met_without_contact(p, slot, snapshot, radius, shifts, upto - 1);
    }
}

/// A particle that touches nothing is only moved: its tick is the tick of
/// motion alone, whatever the shifts.
pub proof fn untouched_particle_only_moves(
    p: Particle,
    slot: int,
    snapshot: Seq<Particle>,
    pointer: Particle,
    config: Config,
    shifts: Seq<(int, int)>,
)
    requires
        untouched(p, slot, snapshot, pointer, config),
    ensures
        advanced(p, slot, snapshot, pointer, config, shifts) == updated(
            p,
            pixel_of(pointer.x_pos as int),
            pixel_of(pointer.y_pos as int),
            config.drag as int,
            config.bounciness as int,
            config.width as int,
            config.height as int,
            config.gravity as int,
        ),
{
    met_without_contact(
        p,
        slot,
        snapshot,
        config.particle_radius as int,
        shifts,
        snapshot.len() as int,
    );
}

/// Where a particle touches nothing, meets no wall and there is no gravity, a
/// tick leaves each component of its momentum scaled by exactly `UNIT - drag`
/// millionths, and no larger in size than it was, for every drag from nothing
/// to twice the whole.
pub proof fn quiet_tick_only_drags(
    p: Particle,
    slot: int,
    snapshot: Seq<Particle>,
    pointer: Particle,
    config: Config,
    shifts: Seq<(int, int)>,
)
    requires
        untouched(p, slot, snapshot, pointer, config),
        !leaves(p.x_pos as int, p.x_momentum as int, pixels(config.width as int)),
        !leaves(p.y_pos as int, p.y_momentum as int, pixels(config.height as int)),
        config.gravity == 0,
        0 <= config.drag <= 2 * UNIT,
    ensures
        ({
            let q = advanced(p, slot, snapshot, pointer, config, shifts);
            &&& q.x_pos == p.x_pos + p.x_momentum
            &&& q.y_pos == p.y_pos + p.y_momentum
            &&& q.x_momentum == scaled(p.x_momentum as int, UNIT - config.drag)
            &&& q.y_momentum == scaled(p.y_momentum as int, UNIT - config.drag)
            &&& magnitude(q.x_momentum as int) <= magnitude(p.x_momentum as int)
            &&& magnitude(q.y_momentum as int) <= magnitude(p.y_momentum as int)
        }),
{
    untouched_particle_only_moves(p, slot, snapshot, pointer, config, shifts);
    drag_shrinks_momentum(
        p,
        pixel_of(pointer.x_pos as int) as i32,
        pixel_of(pointer.y_pos as int) as i32,
        config.drag,
        config.bounciness,
        config.width,
        config.height,
    );
}

/// The population after the particles in the slots that `order` lists have
/// been advanced, one after the other, each against the same snapshot. The
/// particle in slot `i` is shifted by `table[i]`.
pub open spec fn advanced_in_order(
    live: Seq<Particle>,
    snapshot: Seq<Particle>,
    pointer: Particle,
    config: Config,
    table: Seq<Seq<(int, int)>>,
    order: Seq<int>,
) -> Seq<Particle>
    decreases order.len(),
{
    if order.len() == 0 {
        live
    } else {
        let before = advanced_in_order(live, snapshot, pointer, config, table, order.drop_last());
        let slot = order.last();
        before.update(slot, advanced(before[slot], slot, snapshot, pointer, config, table[slot]))
    }
}

/// `order` lists slots of a population of `count`, none of them twice.
pub open spec fn visits_once(order: Seq<int>, count: nat) -> bool {
    &&& forall|a: int| 0 <= a < order.len() ==> 0 <= #[trigger] order[a] < count
    &&& forall|a: int, b: int| 0 <= a < b < order.len() ==> order[a] != order[b]
}

/// Without jitter every shift is zero.
proof fn zero_range_means_no_shifts(shifts: Seq<(int, int)>, count: nat)
    requires
        shifts_within(shifts, count, 0),
    ensures
        shifts == no_shifts(count),
{
    assert forall|j: int| 0 <= j < count implies shifts[j] == (0int, 0int) by {
        assert(inside(shifts[j], 0));
    }
    assert(shifts =~= no_shifts(count));
}

/// Without jitter a tick is a function of the state and of the pixel at which
/// the pointer is seen: whatever a tick can make of them is `still_tick` of
/// them, so two ticks from the same state end in the same one.
pub proof fn tick_without_jitter_is_a_function(pre: Frame, x: i32, y: i32, post: Frame)
    requires
        ticked(pre, x as int, y as int, 0, post),
    ensures
        post == still_tick(pre, x as int, y as int),
{
    let still = still_tick(pre, x as int, y as int);
    let count = pre.particles.len();
    assert forall|i: int| 0 <= i < count implies post.particles[i] == still.particles[i] by {
        assert(reaches(
            pre.particles[i],
            i,
            pre.particles,
            post.pointer,
            pre.config,
            0,
            post.particles[i],
        ));
        let shifts = choose|shifts: Seq<(int, int)>|
            #[trigger] shifts_within(shifts, pre.particles.len() + 1, 0) && post.particles[i]
                == advanced(pre.particles[i], i, pre.particles, post.pointer, pre.config, shifts);
        zero_range_means_no_shifts(shifts, count + 1);
    }
    assert(post.particles =~= still.particles);
}

/// After a tick every particle lies on the canvas, wherever it was before.
pub proof fn tick_keeps_particles_on_canvas(pre: Frame, x: i32, y: i32, range: int, post: Frame)
    requires
        ticked(pre, x as int, y as int, range, post),
    ensures
        forall|i: int|
            0 <= i < post.particles.len() ==> {
                &&& 0 <= (#[trigger] post.particles[i]).x_pos <= pixels(pre.config.width as int)
                &&& 0 <= post.particles[i].y_pos <= pixels(pre.config.height as int)
            },
{
    assert forall|i: int| 0 <= i < post.particles.len() implies {
        &&& 0 <= (#[trigger] post.particles[i]).x_pos <= pixels(pre.config.width as int)
        &&& 0 <= post.particles[i].y_pos <= pixels(pre.config.height as int)
    } by {
        assert(reaches(
            pre.particles[i],
            i,
            pre.particles,
            post.pointer,
            pre.config,
            range,
            post.particles[i],
        ));
    }
}

/// What advancing the slots of `order` makes of the particle in slot `slot`:
/// its own tick where `order` lists the slot, and nothing where it does not.
/// Which other slots `order` lists, and where, plays no part.
pub proof fn outcome_of_a_slot(
    live: Seq<Particle>,
    snapshot: Seq<Particle>,
    pointer: Particle,
    config: Config,
    table: Seq<Seq<(int, int)>>,
    order: Seq<int>,
    slot: int,
)
    requires
        visits_once(order, live.len()),
        0 <= slot < live.len(),
    ensures
        advanced_in_order(live, snapshot, pointer, config, table, order).len() == live.len(),
        advanced_in_order(live, snapshot, pointer, config, table, order)[slot] == if order.contains(
            slot,
        ) {
            advanced(live[slot], slot, snapshot, pointer, config, table[slot])
        } else {
            live[slot]
        },
    decreases order.len(),
{
    if order.len() > 0 {
        let init = order.drop_last();
        let last = order.last();
        assert forall|a: int| 0 <= a < init.len() implies 0 <= #[trigger] init[a] < live.len() by {
            assert(init[a] == order[a]);
        }
        assert forall|a: int, b: int| 0 <= a < b < init.len() implies init[a] != init[b] by {
            assert(init[a] == order[a] && init[b] == order[b]);
        }
        assert(0 <= order[order.len() - 1] < live.len());
        outcome_of_a_slot(live, snapshot, pointer, config, table, init, slot);
        outcome_of_a_slot(live, snapshot, pointer, config, table, init, last);
        if init.contains(last) {
            let a = choose|a: int| 0 <= a < init.len() && init[a] == last;
            assert(order[a] == order[order.len() - 1]);
        }
        if slot == last {
            assert(order[order.len() - 1] == slot);
        } else {
            if order.contains(slot) {
                let a = choose|a: int| 0 <= a < order.len() && order[a] == slot;
                assert(init[a] == slot);
            }
            if init.contains(slot) {
                let a = choose|a: int| 0 <= a < init.len() && init[a] == slot;
                assert(order[a] == slot);
            }
        }
    }
}

/// Two orders that list the same slots, each slot once, leave the same
/// population: a particle's tick reads the others from the snapshot alone, so
/// it is the same whether another particle is advanced before it or after it.
pub proof fn order_does_not_matter(
    live: Seq<Particle>,
    snapshot: Seq<Particle>,
    pointer: Particle,
    config: Config,
    table: Seq<Seq<(int, int)>>,
    first: Seq<int>,
    second: Seq<int>,
)
    requires
        visits_once(first, live.len()),
        visits_once(second, live.len()),
        forall|slot: int| first.contains(slot) <==> second.contains(slot),
    ensures
        advanced_in_order(live, snapshot, pointer, config, table, first) == advanced_in_order(
            live,
            snapshot,
            pointer,
            config,
            table,
            second,
        ),
{
    let a = advanced_in_order(live, snapshot, pointer, config, table, first);
    let b = advanced_in_order(live, snapshot, pointer, config, table, second);
    if live.len() > 0 {
        outcome_of_a_slot(live, snapshot, pointer, config, table, first, 0);
        outcome_of_a_slot(live, snapshot, pointer, config, table, second, 0);
    } else {
        assert(first.len() == 0) by {
            if first.len() > 0 {
                assert(0 <= first[0] < live.len());
            }
        }
        assert(second.len() == 0) by {
            if second.len() > 0 {
                assert(0 <= second[0] < live.len());
            }
        }
    }
    assert forall|slot: int| 0 <= slot < live.len() implies a[slot] == b[slot] by {
        outcome_of_a_slot(live, snapshot, pointer, config, table, first, slot);
        outcome_of_a_slot(live, snapshot, pointer, config, table, second, slot);
    }
    assert(a =~= b);
}

/// The particles of a tick may be advanced in any order: where `order` lists
/// every slot once and each row of `table` holds shifts between `-range` and
/// `range`, what advancing in that order leaves is a tick of `pre`.
pub proof fn any_order_is_a_tick(
    pre: Frame,
    x: i32,
    y: i32,
    range: int,
    table: Seq<Seq<(int, int)>>,
    order: Seq<int>,
)
    requires
        visits_once(order, pre.particles.len()),
        forall|slot: int| 0 <= slot < pre.particles.len() ==> order.contains(slot),
        forall|slot: int|
            0 <= slot < pre.particles.len() ==> shifts_within(
                #[trigger] table[slot],
                pre.particles.len() + 1,
                range,
            ),
    ensures
        ticked(
            pre,
            x as int,
            y as int,
            range,
            Frame {
                config: pre.config,
                particles: advanced_in_order(
                    pre.particles,
                    pre.particles,
                    moved_pointer(pre.pointer, x as int, y as int),
                    pre.config,
                    table,
                    order,
                ),
                snapshot: pre.particles,
                pointer: moved_pointer(pre.pointer, x as int, y as int),
            },
        ),
{
    let pointer = moved_pointer(pre.pointer, x as int, y as int);
    let after = advanced_in_order(pre.particles, pre.particles, pointer, pre.config, table, order);
    if pre.particles.len() == 0 {
        assert(order.len() == 0) by {
            if order.len() > 0 {
                assert(0 <= order[0] < pre.particles.len());
            }
        }
    }
    assert forall|i: int| 0 <= i < pre.particles.len() implies after.len() == pre.particles.len()
        && reaches(
        pre.particles[i],
        i,
        pre.particles,
        pointer,
        pre.config,
        range,
        #[trigger] after[i],
    ) by {
        outcome_of_a_slot(pre.particles, pre.particles, pointer, pre.config, table, order, i);
        assert(shifts_within(table[i], pre.particles.len() + 1, range));
    }
    if pre.particles.len() > 0 {
        outcome_of_a_slot(pre.particles, pre.particles, pointer, pre.config, table, order, 0);
    }
}

/// The population with its snapshot and the pointer.
#[derive(Clone, Debug, PartialEq, Eq)]
pub struct Simulation {
    config: Config,
    particles: Vec<Particle>,
    snapshot: Vec<Particle>,
    pointer: Particle,
}

impl View for Simulation {
    type V = Frame;

    closed spec fn view(&self) -> Frame {
        Frame {
            config: self.config,
            particles: self.particles@,
            snapshot: self.snapshot@,
            pointer: self.pointer,
        }
    }
}

/// A copy of `source` that shares nothing with it.
fn copy_of(source: &Vec<Particle>) -> (copy: Vec<Particle>)
    ensures
        copy@ == source@,
{
    let mut copy: Vec<Particle> = Vec::new();
    let mut i: usize = 0;
    while i < source.len()
        invariant
            i <= source.len(),
            copy@ == source@.take(i as int),
        decreases source.len() - i,
    {
        copy.push(source[i]);
        assert(source@.take(i + 1) == source@.take(i as int).push(source@[i as int]));
        i += 1;
    }
    assert(source@.take(source@.len() as int) == source@);
    copy
}

/// Sets up a population: one particle at rest in each place of the layout.
///
/// A population of no particles is turned down unless the configuration
/// allows it, a canvas without area always, and so is a layout that does
/// not hold one place for each particle.
pub fn initialize(config: Config, layout: &Vec<(i64, i64)>) -> (r: Result<Simulation, ConfigError>)
    ensures
        match r {
            Ok(sim) => rejection(config, layout@.len()) is None && sim.wf() && sim@ == initial(
                config,
                layout@,
            ),
            Err(fault) => rejection(config, layout@.len()) == Some(fault),
        },
{
    if config.population == 0 && !config.allow_empty {
        return Err(ConfigError::EmptyPopulation);
    }
    if config.width == 0 || config.height == 0 {
        return Err(ConfigError::EmptyCanvas);
    }
    if layout.len() != config.population {
        return Err(ConfigError::LayoutMismatch);
    }
    let mut particles: Vec<Particle> = Vec::new();
    let mut i: usize = 0;
    while i < layout.len()
        invariant
            i <= layout.len(),
            particles@.len() == i,
            forall|k: int| 0 <= k < i ==> particles@[k] == placed(layout@[k]),
        decreases layout.len() - i,
    {
        let place: (i64, i64) = layout[i];
        particles.push(Particle { x_pos: place.0, y_pos: place.1, x_momentum: 0, y_momentum: 0 });
        i += 1;
    }
    let snapshot: Vec<Particle> = copy_of(&particles);
    let sim = Simulation { config, particles, snapshot, pointer: crate::particle::new() };
    assert(sim@.particles =~= initial(config, layout@).particles);
    assert(sim@.snapshot =~= initial(config, layout@).snapshot);
    Ok(sim)
}

impl Simulation {
    /// The configuration is one that `initialize` accepts, and population and
    /// snapshot have the length it names.
    pub closed spec fn wf(&self) -> bool {
        &&& rejection(self.config, self.particles@.len()) is None
        &&& self.snapshot@.len() == self.particles@.len()
    }

    /// What the simulation was made with.
    pub fn config(&self) -> (config: Config)
        ensures
            config == self@.config,
    {
        self.config
    }

    /// The number of particles.
    pub fn len(&self) -> (count: usize)
        ensures
            count == self@.particles.len(),
    {
        self.particles.len()
    }

    /// The particles as they are now.
    pub fn particles(&self) -> (particles: &Vec<Particle>)
        ensures
            particles@ == self@.particles,
    {
        &self.particles
    }

    /// The particles as the last snapshot took them.
    pub fn snapshot(&self) -> (particles: &Vec<Particle>)
        ensures
            particles@ == self@.snapshot,
    {
        &self.snapshot
    }

    /// The pointer as it was last seen.
    pub fn pointer(&self) -> (pointer: Particle)
        ensures
            pointer == self@.pointer,
    {
        self.pointer
    }

    /// The pixel of each particle, in the order of the slots.
    pub fn positions(&self) -> (pixels: Vec<(i32, i32)>)
        ensures
            pixels@.len() == self@.particles.len(),
            forall|i: int|
                0 <= i < pixels@.len() ==> pixels@[i] == (
                    pixel_of(self@.particles[i].x_pos as int) as i32,
                    pixel_of(self@.particles[i].y_pos as int) as i32,
                ),
    {
        let mut pixels: Vec<(i32, i32)> = Vec::new();
        let mut i: usize = 0;
        while i < self.particles.len()
            invariant
                i <= self.particles.len(),
                pixels@.len() == i,
                forall|k: int|
                    0 <= k < i ==> pixels@[k] == (
                        pixel_of(self.particles@[k].x_pos as int) as i32,
                        pixel_of(self.particles@[k].y_pos as int) as i32,
                    ),
            decreases self.particles.len() - i,
        {
            let p: Particle = self.particles[i];
            pixels.push((to_pixel(p.x_pos), to_pixel(p.y_pos)));
            i += 1;
        }
        pixels
    }

    /// The pixel that the pointer was last seen at.
    pub fn pointer_position(&self) -> (pixel: (i32, i32))
        ensures
            pixel == (
                pixel_of(self@.pointer.x_pos as int) as i32,
                pixel_of(self@.pointer.y_pos as int) as i32,
            ),
    {
        (to_pixel(self.pointer.x_pos), to_pixel(self.pointer.y_pos))
    }

    /// Copies the population into the snapshot.
    pub fn take_snapshot(&mut self)
        requires
            old(self).wf(),
        ensures
            final(self).wf(),
            final(self)@ == (Frame { snapshot: old(self)@.particles, ..old(self)@ }),
    {
        self.snapshot = copy_of(&self.particles);
    }

    /// Records that the pointer is seen at pixel `(x, y)`.
    pub fn move_pointer(&mut self, x: i32, y: i32)
        requires
            old(self).wf(),
        ensures
            final(self).wf(),
            final(self)@ == (Frame {
                pointer: moved_pointer(old(self)@.pointer, x as int, y as int),
                ..old(self)@
            }),
    {
        let to_x: i64 = from_pixels(x);
        let to_y: i64 = from_pixels(y);
        self.pointer = Particle {
            x_pos: to_x,
            y_pos: to_y,
            x_momentum: saturate(to_x as i128 - self.pointer.x_pos as i128),
            y_momentum: saturate(to_y as i128 - self.pointer.y_pos as i128),
        };
    }

    /// Advances the particle in slot `slot` by one tick, against the snapshot
    /// and the pointer as they stand.
    pub fn advance_particle(&mut self, slot: usize, jitter: &mut JitterSource)
        requires
            old(self).wf(),
            slot < old(self)@.particles.len(),
        ensures
            final(self).wf(),
            final(self)@.config == old(self)@.config,
            final(self)@.snapshot == old(self)@.snapshot,
            final(self)@.pointer == old(self)@.pointer,
            final(self)@.particles == old(self)@.particles.update(
                slot as int,
                final(self)@.particles[slot as int],
            ),
            reaches(
                old(self)@.particles[slot as int],
                slot as int,
                old(self)@.snapshot,
                old(self)@.pointer,
                old(self)@.config,
                old(jitter).limit() as int,
                final(self)@.particles[slot as int],
            ),
            old(jitter).limit() == 0 ==> final(self)@.particles[slot as int] == advanced(
                old(self)@.particles[slot as int],
                slot as int,
                old(self)@.snapshot,
                old(self)@.pointer,
                old(self)@.config,
                no_shifts(old(self)@.snapshot.len() + 1),
            ),
            final(jitter).limit() == old(jitter).limit(),
    {
        let mut p: Particle = self.particles[slot];
        let count: usize = self.snapshot.len();
        let radius: i64 = self.config.particle_radius;
        let ghost start = p;
        let ghost range = jitter.limit() as int;
        let ghost mut shifts: Seq<(int, int)> = Seq::empty();
        let mut j: usize = 0;
        while j < count
            invariant
                j <= count,
                count == self.snapshot@.len(),
                jitter.limit() == range,
                shifts.len() == j,
                forall|k: int| 0 <= k < j ==> inside(#[trigger] shifts[k], range),
                p == met(start, slot as int, self.snapshot@, radius as int, shifts, j as int),
            decreases count - j,
        {
            let other: Particle = self.snapshot[j];
            let ghost before = p;
            let ghost earlier = shifts;
            if j != slot && p.touches(&other, radius) {
                p.collide_with(other, jitter);
                proof {
                    let pair = choose|shift_x: int, shift_y: int|
                        -range <= shift_x <= range && -range <= shift_y <= range && p
                            == #[trigger] collided(before, other, shift_x, shift_y);
                    shifts = shifts.push(pair);
                }
            } else {
                proof {
                    shifts = shifts.push((0int, 0int));
                }
            }
            proof {
                met_reads_prefix(
                    start,
                    slot as int,
                    self.snapshot@,
                    radius as int,
                    earlier,
                    shifts,
                    j as int,
                );
            }
            j += 1;
        }
        let ghost met_all = p;
        let ghost earlier = shifts;
        if p.overlaps(&self.pointer, self.config.pointer_radius) {
            p.collide_with(self.pointer, jitter);
            proof {
                let pair = choose|shift_x: int, shift_y: int|
                    -range <= shift_x <= range && -range <= shift_y <= range && p
                        == #[trigger] collided(met_all, self.pointer, shift_x, shift_y);
                shifts = shifts.push(pair);
            }
        } else {
            proof {
                shifts = shifts.push((0int, 0int));
            }
        }
        proof {
            met_reads_prefix(
                start,
                slot as int,
                self.snapshot@,
                radius as int,
                earlier,
                shifts,
                count as int,
            );
        }
        p.update(
            to_pixel(self.pointer.x_pos),
            to_pixel(self.pointer.y_pos),
            self.config.drag,
            self.config.bounciness,
            self.config.width,
            self.config.height,
            self.config.gravity,
        );
        self.particles.set(slot, p);
        proof {
            assert(shifts_within(shifts, (count + 1) as nat, range));
            assert(p == advanced(
                start,
                slot as int,
                self.snapshot@,
                self.pointer,
                self.config,
                shifts,
            ));
            if range == 0 {
                zero_range_means_no_shifts(shifts, (count + 1) as nat);
            }
        }
    }

    /// One tick: the population is copied into the snapshot, the pointer moves
    /// to pixel `(x, y)`, and every particle is advanced in the order of the
    /// slots. On a population of no particles only the pointer moves.
    pub fn step(&mut self, x: i32, y: i32, jitter: &mut JitterSource)
        requires
            old(self).wf(),
        ensures
            final(self).wf(),
            ticked(old(self)@, x as int, y as int, old(jitter).limit() as int, final(self)@),
            old(jitter).limit() == 0 ==> final(self)@ == still_tick(old(self)@, x as int, y as int),
            final(jitter).limit() == old(jitter).limit(),
    {
        self.take_snapshot();
        self.move_pointer(x, y);
        let count: usize = self.particles.len();
        let ghost range = jitter.limit() as int;
        let ghost pre = old(self)@;
        let mut i: usize = 0;
        while i < count
            invariant
                i <= count,
                count == pre.particles.len(),
                self.wf(),
                jitter.limit() == range,
                self@.config == pre.config,
                self@.snapshot == pre.particles,
                self@.pointer == moved_pointer(pre.pointer, x as int, y as int),
                self@.particles.len() == count,
                forall|k: int|
                    0 <= k < i ==> reaches(
                        pre.particles[k],
                        k,
                        pre.particles,
                        self@.pointer,
                        pre.config,
                        range,
                        #[trigger] self@.particles[k],
                    ),
                forall|k: int| i <= k < count ==> self@.particles[k] == pre.particles[k],
            decreases count - i,
        {
            self.advance_particle(i, jitter);
            i += 1;
        }
        proof {
            if range == 0 {
                tick_without_jitter_is_a_function(pre, x, y, self@);
            }
        }
    }
}

} // verus!
