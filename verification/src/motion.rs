//! Where a particle lands after a tick, and when it bounces.

use vstd::prelude::*;
use crate::error::EngineError;

verus! {

/// The default distance between the low edge of the area and the band in
/// which a particle moves freely: a particle bounces at coordinate 2 or less.
pub const DEFAULT_MARGIN_LOW: i32 = 3;

/// The default distance between the high edge of the area and that band: a
/// particle bounces at 30 below the extent, or beyond.
pub const DEFAULT_MARGIN_HIGH: i32 = 31;

/// How far from the two edges of the area a particle bounces. The same
/// margins hold on both axes.
#[derive(Clone, Copy, Debug, PartialEq, Eq, Structural)]
pub struct Margins {
    pub low: i32,
    pub high: i32,
}

/// A coordinate is outside the free band of an axis of length `extent` when
/// it is below `low` or above `extent - high`.
pub open spec fn outside(position: int, extent: int, low: int, high: int) -> bool {
    position < low || position > extent - high
}

impl Margins {
    /// The margins that the engine uses unless it is given others:
    /// [`DEFAULT_MARGIN_LOW`] and [`DEFAULT_MARGIN_HIGH`].
    pub open spec fn standard_spec() -> Margins {
        Margins { low: DEFAULT_MARGIN_LOW, high: DEFAULT_MARGIN_HIGH }
    }

    /// The margins that the engine uses unless it is given others.
    #[verifier::when_used_as_spec(standard_spec)]
    pub fn standard() -> (m: Margins)
        ensures
            m == Margins::standard_spec(),
    {
        Margins { low: DEFAULT_MARGIN_LOW, high: DEFAULT_MARGIN_HIGH }
    }

    /// Whether a particle at `position` on an axis of length `extent` bounces.
    pub fn reflects(&self, position: i32, extent: i32) -> (bounce: bool)
        ensures
            bounce == outside(position as int, extent as int, self.low as int, self.high as int),
    {
        position < self.low || position as i64 > extent as i64 - self.high as i64
    }
}

/// The outcome of the caller's arithmetic for one particle and one tick: the
/// new velocity, and the whole number of units that the particle moves on
/// each axis.
pub struct Kick<S> {
    pub vx: S,
    pub vy: S,
    pub dx: i32,
    pub dy: i32,
}

/// Where a particle is after a tick, and on which axes it bounced.
#[derive(Clone, Copy, Debug, PartialEq, Eq, Structural)]
pub struct Landing {
    pub x: i32,
    pub y: i32,
    pub flip_x: bool,
    pub flip_y: bool,
}

/// The area in which the particles move.
#[derive(Clone, Copy, Debug, PartialEq, Eq, Structural)]
pub struct Area {
    pub width: i32,
    pub height: i32,
    pub margins: Margins,
}

/// A coordinate that an `i32` holds.
pub open spec fn representable(position: int) -> bool {
    i32::MIN <= position <= i32::MAX
}

impl Area {
    /// Where a particle that starts at `(x, y)` and moves by `(dx, dy)` lands:
    /// nowhere if a coordinate leaves the range of `i32`.
    pub open spec fn landing(&self, x: int, y: int, dx: int, dy: int) -> Option<Landing> {
        if representable(x + dx) && representable(y + dy) {
            Some(
                Landing {
                    x: (x + dx) as i32,
                    y: (y + dy) as i32,
                    flip_x: outside(x + dx, self.width as int, self.margins.low as int, self.margins.high as int),
                    flip_y: outside(y + dy, self.height as int, self.margins.low as int, self.margins.high as int),
                },
            )
        } else {
            None
        }
    }

    /// Moves a particle from `(x, y)` by `(dx, dy)` and says on which axes it
    /// bounces.
    pub fn land(&self, x: i32, y: i32, dx: i32, dy: i32) -> (r: Result<Landing, EngineError>)
        ensures
            match self.landing(x as int, y as int, dx as int, dy as int) {
                Some(l) => r == Ok::<Landing, EngineError>(l),
                None => r == Err::<Landing, EngineError>(EngineError::PositionOverflow),
            },
    {
        match (x.checked_add(dx), y.checked_add(dy)) {
            (Some(nx), Some(ny)) => Ok(
                Landing {
                    x: nx,
                    y: ny,
                    flip_x: self.margins.reflects(nx, self.width),
                    flip_y: self.margins.reflects(ny, self.height),
                },
            ),
            _ => Err(EngineError::PositionOverflow),
        }
    }
}

} // verus!
