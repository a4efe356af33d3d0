//! What a pond is made with: its size, where and how wide a touch is, the
//! heights of a resting and of a touched droplet, how long a ripple lives,
//! and which of the two answers to a touch the pond gives.

use vstd::prelude::*;
use crate::coordinate::Coordinate;
use crate::level::FULL;
use crate::ripple::DEFAULT_MAX_AGE;

verus! {

/// How a pond answers a touch.
#[derive(Debug, Clone, Copy, PartialEq, Eq, Structural)]
pub enum Mode {
    /// The touched cells take the touched height at once, and the resting
    /// height again on release.
    InstantSet,
    /// Each touch starts a ripple at the anchor.
    PropagatingRipple,
}

/// Why a configuration cannot be used.
#[derive(Debug, Clone, Copy, PartialEq, Eq, Structural)]
pub enum ConfigError {
    /// The number of cells is beyond what can be counted.
    GridTooLarge,
    /// A height is above [`FULL`].
    LevelOutOfRange,
    /// Ripples are asked for, with a touch that has no width.
    ZeroFingerWidth,
}

#[derive(Debug, Clone, Copy, PartialEq, Eq, Structural)]
pub struct Config {
    pub width: usize,
    pub height: usize,
    /// The top-left corner of the touched square.
    pub anchor: Coordinate,
    /// The side of the touched square, and the radius of a ripple.
    pub finger_width: usize,
    pub default_level: u32,
    pub touched_level: u32,
    pub max_age: u64,
    pub mode: Mode,
}

impl Config {
    /// What is wrong with the configuration, if anything is.
    pub open spec fn check_spec(self) -> Result<(), ConfigError> {
        if self.width * self.height > usize::MAX {
            Err(ConfigError::GridTooLarge)
        } else if self.default_level > FULL || self.touched_level > FULL {
            Err(ConfigError::LevelOutOfRange)
        } else if self.mode == Mode::PropagatingRipple && self.finger_width == 0 {
            Err(ConfigError::ZeroFingerWidth)
        } else {
            Ok(())
        }
    }

    /// The cells can be counted, both heights lie between 0 and [`FULL`], and
    /// where ripples are asked for the touch has a width.
    pub open spec fn wf(self) -> bool {
        &&& self.width * self.height <= usize::MAX
        &&& self.default_level <= FULL
        &&& self.touched_level <= FULL
        &&& self.mode == Mode::PropagatingRipple ==> self.finger_width > 0
    }

    pub fn check(&self) -> (r: Result<(), ConfigError>)
        ensures
            r == self.check_spec(),
            r is Ok <==> self.wf(),
    {
        if self.width.checked_mul(self.height).is_none() {
            Err(ConfigError::GridTooLarge)
        } else if self.default_level > FULL || self.touched_level > FULL {
            Err(ConfigError::LevelOutOfRange)
        } else if self.finger_width == 0 && matches!(self.mode, Mode::PropagatingRipple) {
            Err(ConfigError::ZeroFingerWidth)
        } else {
            Ok(())
        }
    }
}

impl Default for Config {
    /// A pond of 1024 by 1024 cells resting at half height, touched at
    /// (100, 100) with a finger 10 cells wide, which starts ripples that live
    /// for [`DEFAULT_MAX_AGE`] steps.
    fn default() -> (c: Config)
        ensures
            c == (Config {
                width: 1024,
                height: 1024,
                anchor: Coordinate { x: 100, y: 100 },
                finger_width: 10,
                default_level: 500_000,
                touched_level: 0,
                max_age: DEFAULT_MAX_AGE,
                mode: Mode::PropagatingRipple,
            }),
            c.wf(),
    {
        Config {
            width: 1024,
            height: 1024,
            anchor: Coordinate { x: 100, y: 100 },
            finger_width: 10,
            default_level: 500_000,
            touched_level: 0,
            max_age: DEFAULT_MAX_AGE,
            mode: Mode::PropagatingRipple,
        }
    }
}

} // verus!
