//! A decaying circular wave, and the collection of the waves that are under
//! way.
//!
//! A ripple's age counts the steps it has lived through. What a ripple adds
//! to the height of a cell is given by the caller's wave function, which is
//! asked only where both the age and the distance are positive; the two
//! places where it is not asked are settled here.

use vstd::prelude::*;
use crate::coordinate::Coordinate;

verus! {

/// The age at which a ripple expires unless the configuration says otherwise.
pub const DEFAULT_MAX_AGE: u64 = 500;

/// What a ripple that has begun to move adds to the cell at its own origin,
/// where the distance is zero and the wave function is not asked: the full
/// height, which is where the clamped wave tends as the distance shrinks.
pub const ORIGIN_PEAK: i64 = 1_000_000;

/// The wave function may be called wherever a ripple has to ask it: for every
/// positive age and every offset other than (0, 0).
pub open spec fn wave_defined<F: Fn(u64, usize, usize) -> i64>(wave: F) -> bool {
    forall|age: u64, dx: usize, dy: usize|
        age > 0 && (dx > 0 || dy > 0) ==> #[trigger] call_requires(wave, (age, dx, dy))
}

/// The wave function allows one height only for each age and offset.
pub open spec fn wave_single_valued<F: Fn(u64, usize, usize) -> i64>(wave: F) -> bool {
    forall|age: u64, dx: usize, dy: usize, h1: i64, h2: i64|
        #[trigger] call_ensures(wave, (age, dx, dy), h1)
            && #[trigger] call_ensures(wave, (age, dx, dy), h2)
            ==> h1 == h2
}

/// The wave function gives, for each age and offset, the height that `shape`
/// gives and no other.
pub open spec fn wave_computes<F: Fn(u64, usize, usize) -> i64>(
    wave: F,
    shape: spec_fn(u64, usize, usize) -> i64,
) -> bool {
    forall|age: u64, dx: usize, dy: usize, h: i64|
        #[trigger] call_ensures(wave, (age, dx, dy), h) ==> h == shape(age, dx, dy)
}

/// One wave: where it began, the width of the touch that made it, and the
/// number of steps since then.
#[derive(Debug, Clone, Copy, PartialEq, Eq, Structural)]
pub struct Ripple {
    pub origin: Coordinate,
    pub radius: usize,
    pub age: u64,
}

impl Ripple {
    pub open spec fn wf(self) -> bool {
        self.radius > 0
    }

    /// The ripple as a touch at `origin` creates it.
    pub open spec fn fresh(origin: Coordinate, radius: usize) -> Ripple {
        Ripple { origin, radius, age: 0 }
    }

    /// The ripple is still under way.
    pub open spec fn active(self, max_age: u64) -> bool {
        self.age < max_age
    }

    /// The same ripple one step older.
    pub open spec fn aged(self) -> Ripple {
        Ripple { origin: self.origin, radius: self.radius, age: (self.age + 1) as u64 }
    }

    /// One step: the ripple a step older, or nothing once it has reached
    /// `max_age`.
    pub open spec fn tick_spec(self, max_age: u64) -> Option<Ripple> {
        if self.age >= max_age {
            None
        } else {
            Some(self.aged())
        }
    }

    /// `h` is a height that this ripple may add to `cell`: nothing while its
    /// age is 0, [`ORIGIN_PEAK`] at its own origin, and elsewhere a height
    /// that the wave function gives for the ripple's age and the offset of the
    /// cell from the origin.
    pub open spec fn contributes<F: Fn(u64, usize, usize) -> i64>(
        self,
        cell: Coordinate,
        wave: F,
        h: i64,
    ) -> bool {
        if self.age == 0 {
            h == 0
        } else if cell == self.origin {
            h == ORIGIN_PEAK
        } else {
            call_ensures(
                wave,
                (
                    self.age,
                    vstd::math::abs(cell.x - self.origin.x) as usize,
                    vstd::math::abs(cell.y - self.origin.y) as usize,
                ),
                h,
            )
        }
    }

    /// What this ripple adds to `cell` when the wave has the shape `shape`:
    /// nothing while its age is 0, [`ORIGIN_PEAK`] at its own origin, and
    /// elsewhere the height of the wave at the ripple's age and the offset of
    /// the cell from the origin.
    pub open spec fn height(
        self,
        cell: Coordinate,
        shape: spec_fn(u64, usize, usize) -> i64,
    ) -> int {
        if self.age == 0 {
            0
        } else if cell == self.origin {
            ORIGIN_PEAK as int
        } else {
            shape(
                self.age,
                vstd::math::abs(cell.x - self.origin.x) as usize,
                vstd::math::abs(cell.y - self.origin.y) as usize,
            ) as int
        }
    }

    pub fn new(origin: Coordinate, radius: usize) -> (r: Ripple)
        requires
            radius > 0,
        ensures
            r == Ripple::fresh(origin, radius),
            r.wf(),
    {
        Ripple { origin, radius, age: 0 }
    }

    pub fn tick(&self, max_age: u64) -> (next: Option<Ripple>)
        ensures
            next == self.tick_spec(max_age),
    {
        if self.age >= max_age {
            None
        } else {
            Some(Ripple { origin: self.origin, radius: self.radius, age: self.age + 1 })
        }
    }

    /// What this ripple adds to the height of `cell`.
    pub fn height_contribution<F: Fn(u64, usize, usize) -> i64>(
        &self,
        cell: Coordinate,
        wave: &F,
    ) -> (h: i64)
        requires
            wave_defined(*wave),
        ensures
            self.contributes(cell, *wave, h),
    {
        if self.age == 0 {
            0
        } else {
            let (dx, dy) = cell.offset(self.origin);
            if dx == 0 && dy == 0 {
                ORIGIN_PEAK
            } else {
                wave(self.age, dx, dy)
            }
        }
    }
}

/// The ripples of `ripples` after one step: each a step older, in the order
/// they had, without those that had reached `max_age`.
pub open spec fn advance(ripples: Seq<Ripple>, max_age: u64) -> Seq<Ripple> {
    ripples.filter_map(|r: Ripple| r.tick_spec(max_age))
}

/// The ripples of `ripples` after `steps` steps.
pub open spec fn advance_by(ripples: Seq<Ripple>, max_age: u64, steps: nat) -> Seq<Ripple>
    decreases steps,
{
    if steps == 0 {
        ripples
    } else {
        advance(advance_by(ripples, max_age, (steps - 1) as nat), max_age)
    }
}

/// The waves that are under way, oldest first.
#[derive(Debug)]
pub struct RippleSet {
    ripples: Vec<Ripple>,
}

impl View for RippleSet {
    type V = Seq<Ripple>;

    closed spec fn view(&self) -> Seq<Ripple> {
        self.ripples@
    }
}

impl RippleSet {
    pub fn new() -> (set: RippleSet)
        ensures
            set@ == Seq::<Ripple>::empty(),
    {
        RippleSet { ripples: Vec::new() }
    }

    pub fn len(&self) -> (n: usize)
        ensures
            n == self@.len(),
    {
        self.ripples.len()
    }

    pub fn is_empty(&self) -> (b: bool)
        ensures
            b == (self@.len() == 0),
    {
        self.ripples.len() == 0
    }

    pub fn get(&self, i: usize) -> (r: Ripple)
        requires
            i < self@.len(),
        ensures
            r == self@[i as int],
    {
        self.ripples[i]
    }

    /// Adds a ripple behind those that are there.
    pub fn push(&mut self, ripple: Ripple)
        ensures
            final(self)@ == old(self)@.push(ripple),
    {
        self.ripples.push(ripple);
    }

    /// One step for every ripple: those that have reached `max_age` leave,
    /// the others grow a step older and keep their order.
    pub fn step(&mut self, max_age: u64)
        ensures
            final(self)@ == advance(old(self)@, max_age),
    {
        let ghost before = self.ripples@;
        let ghost f = |r: Ripple| r.tick_spec(max_age);
        let mut kept: Vec<Ripple> = Vec::new();
        let n: usize = self.ripples.len();
        let mut i: usize = 0;
        while i < n
            invariant
                i <= n,
                n == before.len(),
                self.ripples@ == before,
                f == (|r: Ripple| r.tick_spec(max_age)),
                kept@ == before.take(i as int).filter_map(f),
            decreases n - i,
        {
            proof {
                before.lemma_filter_map_take_succ(f, i as int);
            }
            match self.ripples[i].tick(max_age) {
                Some(next) => {
                    kept.push(next);
                },
                None => {},
            }
            i += 1;
        }
        assert(before.take(n as int) =~= before);
        self.ripples = kept;
    }
}

/// A ripple that is `age` steps old with `age <= max_age` is, `steps` steps
/// later, in the set a further `steps` older as long as that age does not
/// pass `max_age`, and gone from then on.
pub proof fn lemma_lone_ripple_after(r: Ripple, max_age: u64, steps: nat)
    requires
        r.age <= max_age,
    ensures
        r.age + steps <= max_age ==> advance_by(seq![r], max_age, steps) == seq![
            Ripple { origin: r.origin, radius: r.radius, age: (r.age + steps) as u64 },
        ],
        r.age + steps > max_age ==> advance_by(seq![r], max_age, steps) == Seq::<Ripple>::empty(),
    decreases steps,
{
    let f = |x: Ripple| x.tick_spec(max_age);
    if steps > 0 {
        let prev = (steps - 1) as nat;
        lemma_lone_ripple_after(r, max_age, prev);
        if r.age + prev <= max_age {
            let before = Ripple { origin: r.origin, radius: r.radius, age: (r.age + prev) as u64 };
            Seq::lemma_filter_map_singleton(before, f);
            assert(advance(seq![before], max_age) == seq![before].filter_map(f));
        } else {
            assert(Seq::<Ripple>::empty().filter_map(f) == Seq::<Ripple>::empty());
        }
    }
}

/// A ripple lives for exactly `max_age` steps: created at age 0, it is in the
/// set after each of its first `max_age` steps, one step older each time, and
/// in no set after that.
pub proof fn lemma_ripple_lifetime(origin: Coordinate, radius: usize, max_age: u64, steps: nat)
    ensures
        steps <= max_age ==> advance_by(seq![Ripple::fresh(origin, radius)], max_age, steps)
            == seq![Ripple { origin, radius, age: steps as u64 }],
        steps > max_age ==> advance_by(seq![Ripple::fresh(origin, radius)], max_age, steps)
            == Seq::<Ripple>::empty(),
{
    lemma_lone_ripple_after(Ripple::fresh(origin, radius), max_age, steps);
}

} // verus!
