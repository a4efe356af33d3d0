//! The pond: a field of droplets, the ripples that run over it, and whether
//! the finger is on it.
//!
//! [`PondState`] is the pond as mathematics sees it, with every step of the
//! simulation as a function from state to state. [`Pond`] is the pond that
//! runs; each of its operations is tied to the function of the same name.

use vstd::prelude::*;
use vstd::seq_lib::lemma_seq_contains_after_push;
use crate::color::Color;
use crate::config::{Config, ConfigError, Mode};
use crate::coordinate::Coordinate;
use crate::epicenter::{epicenter, in_epicenter};
use crate::event::{Button, ButtonState, Event, Phase};
use crate::grid::{coordinate_of, in_bounds, index_of, lemma_coordinate_round_trip, lemma_index_round_trip, Grid};
use crate::level::{clamp, clamp_total, sum, FULL};
use crate::ripple::{advance, wave_computes, wave_defined, wave_single_valued, Ripple, RippleSet};

verus! {

/// What a pond holds at one moment.
pub struct PondState {
    pub config: Config,
    /// The resting heights, row by row.
    pub levels: Seq<u32>,
    /// The ripples under way, oldest first.
    pub ripples: Seq<Ripple>,
    pub phase: Phase,
}

impl PondState {
    /// The configuration is sound, there is one height from 0 to [`FULL`]
    /// for every cell, and every ripple is one that a touch of this pond has
    /// started and that has not outlived its time.
    pub open spec fn wf(self) -> bool {
        &&& self.config.wf()
        &&& self.levels.len() == self.config.width * self.config.height
        &&& forall|i: int| 0 <= i < self.levels.len() ==> #[trigger] self.levels[i] <= FULL
        &&& forall|k: int|
            0 <= k < self.ripples.len() ==> {
                &&& (#[trigger] self.ripples[k]).origin == self.config.anchor
                &&& self.ripples[k].radius == self.config.finger_width
                &&& self.ripples[k].wf()
                &&& self.ripples[k].age <= self.config.max_age
            }
        &&& self.config.mode == Mode::InstantSet ==> self.ripples.len() == 0
    }

    /// The pond as it is made: every droplet at rest, no ripple, no finger.
    pub open spec fn initial(config: Config) -> PondState {
        PondState {
            config,
            levels: Seq::new((config.width * config.height) as nat, |i: int| config.default_level),
            ripples: Seq::empty(),
            phase: Phase::Idle,
        }
    }

    /// The cell at place `i` of a frame or of the heights.
    pub open spec fn cell(self, i: int) -> Coordinate {
        coordinate_of(self.config.width as nat, i)
    }

    /// The cell at place `i` is one that a touch reaches.
    pub open spec fn touched(self, i: int) -> bool {
        in_epicenter(self.config.anchor, self.config.finger_width, self.cell(i))
    }

    /// The heights with every cell that a touch reaches set to `level`.
    pub open spec fn with_epicenter(self, level: u32) -> Seq<u32> {
        Seq::new(
            self.levels.len(),
            |i: int|
                if self.touched(i) {
                    level
                } else {
                    self.levels[i]
                },
        )
    }

    /// The finger comes down.
    pub open spec fn touch(self) -> PondState {
        match self.config.mode {
            Mode::InstantSet => PondState {
                levels: self.with_epicenter(self.config.touched_level),
                phase: Phase::Touching,
                ..self
            },
            Mode::PropagatingRipple => PondState {
                ripples: self.ripples.push(
                    Ripple::fresh(self.config.anchor, self.config.finger_width),
                ),
                phase: Phase::Touching,
                ..self
            },
        }
    }

    /// The finger is lifted.
    pub open spec fn release(self) -> PondState {
        match self.config.mode {
            Mode::InstantSet => PondState {
                levels: self.with_epicenter(self.config.default_level),
                phase: Phase::Idle,
                ..self
            },
            Mode::PropagatingRipple => PondState { phase: Phase::Idle, ..self },
        }
    }

    /// One event: the action button touches and releases, nothing else does
    /// anything.
    pub open spec fn handle(self, event: Event) -> PondState {
        if event.is_press() {
            self.touch()
        } else if event.is_release() {
            self.release()
        } else {
            self
        }
    }

    /// A batch of events, one after the other.
    pub open spec fn handle_all(self, events: Seq<Event>) -> PondState
        decreases events.len(),
    {
        if events.len() == 0 {
            self
        } else {
            self.handle_all(events.drop_last()).handle(events.last())
        }
    }

    /// One step of the ripples. The heights stay as they are.
    pub open spec fn step(self) -> PondState {
        PondState { ripples: advance(self.ripples, self.config.max_age), ..self }
    }

    /// One frame's worth of change: the events of the frame, then a step.
    pub open spec fn tick(self, events: Seq<Event>) -> PondState {
        self.handle_all(events).step()
    }

    /// What the ripples add to `cell`, all together, when the wave has the
    /// shape `shape`.
    pub open spec fn ripple_height(
        ripples: Seq<Ripple>,
        cell: Coordinate,
        shape: spec_fn(u64, usize, usize) -> i64,
    ) -> int
        decreases ripples.len(),
    {
        if ripples.len() == 0 {
            0
        } else {
            PondState::ripple_height(ripples.drop_last(), cell, shape) + ripples.last().height(
                cell,
                shape,
            )
        }
    }

    /// The height of the cell at place `i` when the wave has the shape
    /// `shape`: its resting height and what every ripple adds to it.
    pub open spec fn total_height(self, i: int, shape: spec_fn(u64, usize, usize) -> i64) -> int {
        self.levels[i] + PondState::ripple_height(self.ripples, self.cell(i), shape)
    }

    /// `heights` holds, for each ripple in turn, a height that the ripple may
    /// add to `cell`.
    pub open spec fn heights_fit<F: Fn(u64, usize, usize) -> i64>(
        self,
        wave: F,
        cell: Coordinate,
        heights: Seq<i64>,
    ) -> bool {
        &&& heights.len() == self.ripples.len()
        &&& forall|k: int|
            0 <= k < heights.len() ==> #[trigger] self.ripples[k].contributes(
                cell,
                wave,
                heights[k],
            )
    }

    /// `color` shows the cell at place `i`: its blue is the cell's resting
    /// height plus what every ripple adds to the cell, brought into the range
    /// from 0 to [`FULL`].
    pub open spec fn cell_shows<F: Fn(u64, usize, usize) -> i64>(
        self,
        wave: F,
        i: int,
        color: Color,
    ) -> bool {
        exists|heights: Seq<i64>|
            #[trigger] self.heights_fit(wave, self.cell(i), heights) && color == Color::shade_of(
                clamp(self.levels[i] + sum(heights)),
            )
    }

    /// `frame` shows the pond: it has one color for every cell, row by row,
    /// and each shows its cell.
    pub open spec fn rendered<F: Fn(u64, usize, usize) -> i64>(
        self,
        wave: F,
        frame: Seq<Color>,
    ) -> bool {
        &&& frame.len() == self.levels.len()
        &&& forall|i: int| 0 <= i < frame.len() ==> #[trigger] self.cell_shows(wave, i, frame[i])
    }
}

/// The pond.
#[derive(Debug)]
pub struct Pond {
    config: Config,
    grid: Grid,
    ripples: RippleSet,
    phase: Phase,
}

impl View for Pond {
    type V = PondState;

    closed spec fn view(&self) -> PondState {
        PondState {
            config: self.config,
            levels: self.grid@,
            ripples: self.ripples@,
            phase: self.phase,
        }
    }
}

impl Pond {
    /// The field is as large as the configuration says.
    pub closed spec fn sized(&self) -> bool {
        &&& self.grid.cols() == self.config.width
        &&& self.grid.rows() == self.config.height
    }

    pub open spec fn wf(&self) -> bool {
        self@.wf() && self.sized()
    }

    /// A pond at rest, or what is wrong with the configuration.
    pub fn new(config: Config) -> (r: Result<Pond, ConfigError>)
        ensures
            match config.check_spec() {
                Ok(_) => r matches Ok(pond) && pond.wf() && pond@ == PondState::initial(config),
                Err(e) => r matches Err(err) && err == e,
            },
    {
        match config.check() {
            Err(e) => Err(e),
            Ok(_) => {
                match Grid::new(config.width, config.height, config.default_level) {
                    None => Err(ConfigError::GridTooLarge),
                    Some(grid) => {
                        let pond = Pond { config, grid, ripples: RippleSet::new(), phase: Phase::Idle };
                        assert(pond@.ripples =~= Seq::<Ripple>::empty());
                        Ok(pond)
                    },
                }
            },
        }
    }

    /// The width and the height of the field, which every frame has too.
    pub fn dimensions(&self) -> (d: (usize, usize))
        ensures
            d.0 == self@.config.width,
            d.1 == self@.config.height,
    {
        (self.config.width, self.config.height)
    }

    pub fn config(&self) -> (c: Config)
        ensures
            c == self@.config,
    {
        self.config
    }

    pub fn phase(&self) -> (p: Phase)
        ensures
            p == self@.phase,
    {
        self.phase
    }

    /// The number of ripples under way.
    pub fn ripple_count(&self) -> (n: usize)
        ensures
            n == self@.ripples.len(),
    {
        self.ripples.len()
    }

    /// The `k`-th ripple, counted from the oldest.
    pub fn ripple(&self, k: usize) -> (r: Option<Ripple>)
        ensures
            r == if k < self@.ripples.len() {
                Some(self@.ripples[k as int])
            } else {
                None
            },
    {
        if k < self.ripples.len() {
            Some(self.ripples.get(k))
        } else {
            None
        }
    }

    /// The resting height of cell `(x, y)`, or nothing outside the field.
    pub fn level(&self, x: usize, y: usize) -> (level: Option<u32>)
        requires
            self.wf(),
        ensures
            level == if in_bounds(
                self@.config.width as nat,
                self@.config.height as nat,
                x as int,
                y as int,
            ) {
                Some(self@.levels[index_of(self@.config.width as nat, x as int, y as int)])
            } else {
                None
            },
    {
        proof {
            if in_bounds(self.grid.cols(), self.grid.rows(), x as int, y as int) {
                lemma_index_round_trip(self.grid.cols(), self.grid.rows(), x as int, y as int);
            }
        }
        match self.grid.to_index(x, y) {
            Some(i) => Some(self.grid.level(i)),
            None => None,
        }
    }

    /// Lets every cell that a touch reaches rest at `new_val`, and leaves the
    /// other cells as they are.
    pub fn update_epicenter(&mut self, new_val: u32)
        requires
            old(self).wf(),
            new_val <= FULL,
        ensures
            final(self).wf(),
            final(self)@ == (PondState {
                levels: old(self)@.with_epicenter(new_val),
                ..old(self)@
            }),
    {
        let ghost start = self@;
        let ghost width = self.config.width as nat;
        let ghost height = self.config.height as nat;
        let anchor = self.config.anchor;
        let side = self.config.finger_width;
        let cells = epicenter(self.config.width, self.config.height, anchor, side);
        let n: usize = cells.len();
        let mut k: usize = 0;
        while k < n
            invariant
                k <= n,
                n == cells@.len(),
                new_val <= FULL,
                start.wf(),
                width == start.config.width,
                height == start.config.height,
                self.grid.wf(),
                self.sized(),
                self@.config == start.config,
                self@.ripples == start.ripples,
                self@.phase == start.phase,
                self@.levels.len() == start.levels.len(),
                forall|c: Coordinate|
                    cells@.contains(c) ==> in_bounds(width, height, c.x as int, c.y as int),
                forall|i: int|
                    0 <= i < start.levels.len() ==> self@.levels[i] == if cells@.take(
                        k as int,
                    ).contains(coordinate_of(width, i)) {
                        new_val
                    } else {
                        start.levels[i]
                    },
            decreases n - k,
        {
            let cell = cells[k];
            proof {
                assert(cells@.contains(cell));
                lemma_index_round_trip(width, height, cell.x as int, cell.y as int);
            }
            match self.grid.to_index(cell.x, cell.y) {
                Some(i) => {
                    self.grid.set_level(i, new_val);
                },
                None => {},
            }
            proof {
                assert(cells@.take(k + 1) =~= cells@.take(k as int).push(cell));
                assert forall|i: int| 0 <= i < start.levels.len() implies self@.levels[i]
                    == if cells@.take(k + 1).contains(coordinate_of(width, i)) {
                    new_val
                } else {
                    start.levels[i]
                } by {
                    lemma_coordinate_round_trip(width, height, i);
                    lemma_seq_contains_after_push(
                        cells@.take(k as int),
                        cell,
                        coordinate_of(width, i),
                    );
                }
            }
            k += 1;
        }
        proof {
            assert(cells@.take(n as int) =~= cells@);
            assert forall|i: int| 0 <= i < start.levels.len() implies self@.levels[i]
                == start.with_epicenter(new_val)[i] by {
                lemma_coordinate_round_trip(width, height, i);
            }
            assert(self@.levels =~= start.with_epicenter(new_val));
        }
    }

    /// Places the finger in the pond.
    pub fn touch(&mut self)
        requires
            old(self).wf(),
        ensures
            final(self).wf(),
            final(self)@ == old(self)@.touch(),
    {
        match self.config.mode {
            Mode::InstantSet => {
                self.update_epicenter(self.config.touched_level);
            },
            Mode::PropagatingRipple => {
                self.ripples.push(Ripple::new(self.config.anchor, self.config.finger_width));
            },
        }
        self.phase = Phase::Touching;
    }

    /// Lifts the finger from the pond.
    pub fn release(&mut self)
        requires
            old(self).wf(),
        ensures
            final(self).wf(),
            final(self)@ == old(self)@.release(),
    {
        match self.config.mode {
            Mode::InstantSet => {
                self.update_epicenter(self.config.default_level);
            },
            Mode::PropagatingRipple => {},
        }
        self.phase = Phase::Idle;
    }

    /// Takes in one event.
    pub fn process_event(&mut self, event: &Event)
        requires
            old(self).wf(),
        ensures
            final(self).wf(),
            final(self)@ == old(self)@.handle(*event),
    {
        match event {
            Event::Button { state: ButtonState::Pressed, button: Button::Action } => self.touch(),
            Event::Button { state: ButtonState::Released, button: Button::Action } => self.release(),
            _ => {},
        }
    }

    /// Lets every ripple grow a step older and drops those whose time is up.
    pub fn step(&mut self)
        requires
            old(self).wf(),
        ensures
            final(self).wf(),
            final(self)@ == old(self)@.step(),
    {
        proof {
            lemma_step_wf(self@);
        }
        self.ripples.step(self.config.max_age);
    }

    /// One frame's worth of change: takes in the events in their order, then
    /// lets the ripples take a step.
    pub fn tick(&mut self, events: &[Event])
        requires
            old(self).wf(),
        ensures
            final(self).wf(),
            final(self)@ == old(self)@.tick(events@),
    {
        let ghost start = self@;
        let n: usize = events.len();
        let mut i: usize = 0;
        while i < n
            invariant
                i <= n,
                n == events@.len(),
                self.wf(),
                self@ == start.handle_all(events@.take(i as int)),
            decreases n - i,
        {
            proof {
                assert(events@.take(i + 1).drop_last() =~= events@.take(i as int));
            }
            self.process_event(&events[i]);
            i += 1;
        }
        proof {
            assert(events@.take(n as int) =~= events@);
        }
        self.step();
    }

    /// The color of the cell at place `i`: the resting height of the cell and
    /// what every ripple adds to it, summed, clamped, and shown as blue.
    pub fn cell_color<F: Fn(u64, usize, usize) -> i64>(&self, i: usize, wave: &F) -> (color: Color)
        requires
            self.wf(),
            i < self@.levels.len(),
            wave_defined(*wave),
        ensures
            self@.cell_shows(*wave, i as int, color),
            color.red == 0,
            color.green == 0,
            color.blue <= FULL,
            color.alpha == FULL,
    {
        let cell = match self.grid.to_coordinate(i) {
            Some(cell) => cell,
            None => vstd::pervasive::unreached(),
        };
        let level: u32 = self.grid.level(i);
        let count: usize = self.ripples.len();
        let mut total: i128 = level as i128;
        let ghost mut heights: Seq<i64> = Seq::empty();
        let mut k: usize = 0;
        while k < count
            invariant
                k <= count,
                count == self@.ripples.len(),
                wave_defined(*wave),
                level <= FULL,
                heights.len() == k,
                forall|j: int|
                    0 <= j < k ==> #[trigger] self@.ripples[j].contributes(cell, *wave, heights[j]),
                total == level + sum(heights),
                -(k * 0x8000_0000_0000_0000) <= total - level <= k * 0x7fff_ffff_ffff_ffff,
            decreases count - k,
        {
            let h: i64 = self.ripples.get(k).height_contribution(cell, wave);
            proof {
                assert(heights.push(h).drop_last() =~= heights);
                heights = heights.push(h);
            }
            total = total + h as i128;
            k += 1;
        }
        proof {
            assert(self@.heights_fit(*wave, self@.cell(i as int), heights));
        }
        Color::shade(clamp_total(total))
    }

    /// Draws the pond into `buffer`, one color for every cell, row by row.
    /// Every entry is written; what the buffer held before plays no part.
    pub fn render<F: Fn(u64, usize, usize) -> i64>(&self, buffer: &mut Vec<Color>, wave: &F)
        requires
            self.wf(),
            old(buffer)@.len() == self@.config.width * self@.config.height,
            wave_defined(*wave),
        ensures
            self@.rendered(*wave, final(buffer)@),
            forall|i: int|
                0 <= i < final(buffer)@.len() ==> {
                    &&& (#[trigger] final(buffer)@[i]).red == 0
                    &&& final(buffer)@[i].green == 0
                    &&& final(buffer)@[i].blue <= FULL
                    &&& final(buffer)@[i].alpha == FULL
                },
    {
        let n: usize = self.grid.len();
        let mut i: usize = 0;
        while i < n
            invariant
                i <= n,
                self.wf(),
                wave_defined(*wave),
                n == self@.levels.len(),
                buffer@.len() == n,
                forall|j: int| 0 <= j < i ==> #[trigger] self@.cell_shows(*wave, j, buffer@[j]),
                forall|j: int|
                    0 <= j < i ==> {
                        &&& (#[trigger] buffer@[j]).red == 0
                        &&& buffer@[j].green == 0
                        &&& buffer@[j].blue <= FULL
                        &&& buffer@[j].alpha == FULL
                    },
            decreases n - i,
        {
            let color = self.cell_color(i, wave);
            buffer[i] = color;
            i += 1;
        }
    }
}


/// A pond made with a sound configuration is a sound pond.
pub proof fn lemma_initial_wf(config: Config)
    requires
        config.wf(),
    ensures
        PondState::initial(config).wf(),
{
}

/// No event makes a sound pond unsound.
pub proof fn lemma_handle_wf(s: PondState, event: Event)
    requires
        s.wf(),
    ensures
        s.handle(event).wf(),
{
}

/// No batch of events makes a sound pond unsound.
pub proof fn lemma_handle_all_wf(s: PondState, events: Seq<Event>)
    requires
        s.wf(),
    ensures
        s.handle_all(events).wf(),
    decreases events.len(),
{
    if events.len() > 0 {
        lemma_handle_all_wf(s, events.drop_last());
        lemma_handle_wf(s.handle_all(events.drop_last()), events.last());
    }
}

/// A sound pond is sound in the next frame, whatever the events.
pub proof fn lemma_tick_wf(s: PondState, events: Seq<Event>)
    requires
        s.wf(),
    ensures
        s.tick(events).wf(),
{
    lemma_handle_all_wf(s, events);
    lemma_step_wf(s.handle_all(events));
}

/// A step keeps a pond sound: each ripple that stays is one that was there,
/// a step older and not beyond its time.
pub proof fn lemma_step_wf(s: PondState)
    requires
        s.wf(),
    ensures
        s.step().wf(),
{
    let f = |r: Ripple| r.tick_spec(s.config.max_age);
    let after = advance(s.ripples, s.config.max_age);
    assert forall|k: int| 0 <= k < after.len() implies {
        &&& (#[trigger] after[k]).origin == s.config.anchor
        &&& after[k].radius == s.config.finger_width
        &&& after[k].wf()
        &&& after[k].age <= s.config.max_age
    } by {
        assert(after.contains(after[k]));
        s.ripples.lemma_filter_map_contains(f, after[k]);
        let before = choose|r: Ripple| #[trigger] s.ripples.contains(r) && f(r) == Some(after[k]);
        assert(before.age < s.config.max_age);
    }
    if s.ripples.len() == 0 {
        assert(after.len() == 0);
    }
}

/// In a pond that sets heights at once, a frame with a press leaves every
/// cell that the touch reaches at the touched height, a later frame with a
/// release leaves every such cell at the resting height, and neither changes
/// any other cell.
pub proof fn lemma_touch_release_round_trip(s: PondState, i: int)
    requires
        s.config.mode == Mode::InstantSet,
        0 <= i < s.levels.len(),
    ensures
        s.tick(seq![Event::press()]).phase == Phase::Touching,
        s.tick(seq![Event::press()]).levels.len() == s.levels.len(),
        s.tick(seq![Event::press()]).levels[i] == if s.touched(i) {
            s.config.touched_level
        } else {
            s.levels[i]
        },
        s.tick(seq![Event::press()]).tick(seq![Event::release()]).phase == Phase::Idle,
        s.tick(seq![Event::press()]).tick(seq![Event::release()]).levels.len() == s.levels.len(),
        s.tick(seq![Event::press()]).tick(seq![Event::release()]).levels[i] == if s.touched(i) {
            s.config.default_level
        } else {
            s.levels[i]
        },
{
    reveal_with_fuel(PondState::handle_all, 2);
    let pressed = s.tick(seq![Event::press()]);
    assert(seq![Event::press()].drop_last() =~= Seq::<Event>::empty());
    assert(s.handle_all(seq![Event::press()]) == s.touch());
    assert(seq![Event::release()].drop_last() =~= Seq::<Event>::empty());
    assert(pressed.handle_all(seq![Event::release()]) == pressed.release());
    assert(pressed.touched(i) == s.touched(i));
}

/// In a pond that sets heights at once, a press and a release in one batch
/// come to the same as the release alone: the finger is off the pond, every
/// cell that the touch reaches is at the resting height, and no other cell
/// has changed.
pub proof fn lemma_press_then_release(s: PondState)
    requires
        s.config.mode == Mode::InstantSet,
    ensures
        s.handle_all(seq![Event::press(), Event::release()]) == s.handle_all(seq![Event::release()]),
        s.tick(seq![Event::press(), Event::release()]) == s.tick(seq![Event::release()]),
        s.handle_all(seq![Event::press(), Event::release()]).phase == Phase::Idle,
        s.handle_all(seq![Event::press(), Event::release()]).levels == s.with_epicenter(s.config.default_level),
{
    reveal_with_fuel(PondState::handle_all, 3);
    let both = seq![Event::press(), Event::release()];
    assert(both.drop_last() =~= seq![Event::press()]);
    assert(seq![Event::press()].drop_last() =~= Seq::<Event>::empty());
    assert(seq![Event::release()].drop_last() =~= Seq::<Event>::empty());
    assert(s.handle_all(both) == s.touch().release());
    assert(s.handle_all(seq![Event::release()]) == s.release());
    assert(s.touch().release().levels =~= s.release().levels);
}

/// Whatever the ripples add, a frame that shows the pond holds no color
/// outside the range: blue lies between 0 and [`FULL`], red and green are 0,
/// and alpha is [`FULL`].
pub proof fn lemma_rendered_in_range<F: Fn(u64, usize, usize) -> i64>(
    s: PondState,
    wave: F,
    frame: Seq<Color>,
    i: int,
)
    requires
        s.rendered(wave, frame),
        0 <= i < frame.len(),
    ensures
        0 <= frame[i].blue <= FULL,
        frame[i].red == 0,
        frame[i].green == 0,
        frame[i].alpha == FULL,
{
    assert(s.cell_shows(wave, i, frame[i]));
}

/// With no ripple under way, a frame that shows the pond shows the resting
/// heights and nothing else.
pub proof fn lemma_still_pond<F: Fn(u64, usize, usize) -> i64>(
    s: PondState,
    wave: F,
    frame: Seq<Color>,
    i: int,
)
    requires
        s.rendered(wave, frame),
        s.ripples.len() == 0,
        0 <= i < frame.len(),
        s.levels[i] <= FULL,
    ensures
        frame[i] == Color::shade_of(s.levels[i] as int),
{
    assert(s.cell_shows(wave, i, frame[i]));
}

/// Heights that fit the ripples of a pond add up to what the ripples add
/// under the shape that the wave function computes.
pub proof fn lemma_heights_sum<F: Fn(u64, usize, usize) -> i64>(
    ripples: Seq<Ripple>,
    wave: F,
    shape: spec_fn(u64, usize, usize) -> i64,
    cell: Coordinate,
    heights: Seq<i64>,
)
    requires
        wave_computes(wave, shape),
        heights.len() == ripples.len(),
        forall|k: int|
            0 <= k < heights.len() ==> #[trigger] ripples[k].contributes(cell, wave, heights[k]),
    ensures
        sum(heights) == PondState::ripple_height(ripples, cell, shape),
    decreases ripples.len(),
{
    if ripples.len() > 0 {
        let last = ripples.len() - 1;
        assert(ripples[last].contributes(cell, wave, heights[last]));
        assert forall|k: int| 0 <= k < heights.drop_last().len() implies #[trigger] ripples.drop_last()[k].contributes(
            cell,
            wave,
            heights.drop_last()[k],
        ) by {
            assert(ripples[k].contributes(cell, wave, heights[k]));
        }
        lemma_heights_sum(ripples.drop_last(), wave, shape, cell, heights.drop_last());
    }
}

/// A frame that shows the pond shows, in every cell, the cell's resting
/// height plus what every ripple adds to the cell under the shape that the
/// wave function computes, clamped to the range from 0 to [`FULL`], as blue.
pub proof fn lemma_rendered_by_shape<F: Fn(u64, usize, usize) -> i64>(
    s: PondState,
    wave: F,
    shape: spec_fn(u64, usize, usize) -> i64,
    frame: Seq<Color>,
    i: int,
)
    requires
        wave_computes(wave, shape),
        s.rendered(wave, frame),
        0 <= i < frame.len(),
    ensures
        frame[i] == Color::shade_of(clamp(s.total_height(i, shape))),
{
    assert(s.cell_shows(wave, i, frame[i]));
    let heights = choose|heights: Seq<i64>|
        #[trigger] s.heights_fit(wave, s.cell(i), heights) && frame[i] == Color::shade_of(
            clamp(s.levels[i] + sum(heights)),
        );
    lemma_heights_sum(s.ripples, wave, shape, s.cell(i), heights);
}

/// Two frames that show the same pond are the same frame, as long as the
/// wave function gives one height only for each age and offset: drawing
/// twice with no change in between draws the same picture.
pub proof fn lemma_render_repeatable<F: Fn(u64, usize, usize) -> i64>(
    s: PondState,
    wave: F,
    first: Seq<Color>,
    second: Seq<Color>,
)
    requires
        wave_single_valued(wave),
        s.rendered(wave, first),
        s.rendered(wave, second),
    ensures
        first == second,
{
    assert forall|i: int| 0 <= i < first.len() implies first[i] == second[i] by {
        assert(s.cell_shows(wave, i, first[i]));
        assert(s.cell_shows(wave, i, second[i]));
        let cell = s.cell(i);
        let a = choose|heights: Seq<i64>|
            #[trigger] s.heights_fit(wave, cell, heights) && first[i] == Color::shade_of(
                clamp(s.levels[i] + sum(heights)),
            );
        let b = choose|heights: Seq<i64>|
            #[trigger] s.heights_fit(wave, cell, heights) && second[i] == Color::shade_of(
                clamp(s.levels[i] + sum(heights)),
            );
        assert forall|k: int| 0 <= k < a.len() implies a[k] == b[k] by {
            assert(s.ripples[k].contributes(cell, wave, a[k]));
            assert(s.ripples[k].contributes(cell, wave, b[k]));
        }
        assert(a =~= b);
    }
    assert(first =~= second);
}

} // verus!
