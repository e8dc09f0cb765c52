//! The miner, who walks along the top of the screen.

use vstd::prelude::*;
use crate::config::Config;
use crate::geometry::Point;

verus! {

/// The miner: a box of fixed size around a centre that moves sideways only.
#[derive(Clone, Copy, Debug, PartialEq, Eq, Structural)]
pub struct Miner {
    /// The centre of the miner.
    pub position: Point,
    pub width: i32,
    pub height: i32,
}

impl Miner {
    /// The miner has the configured size and stands wholly on the screen.
    pub open spec fn wf(self, config: Config) -> bool {
        &&& self.width == config.miner_width
        &&& self.height == config.miner_height
        &&& config.half_width() <= self.position.x <= config.screen_width - config.half_width()
        &&& 0 <= self.position.y <= config.screen_height
    }

    /// The miner where a round starts: in the middle of the screen, at the
    /// configured height.
    pub open spec fn centred(config: Config) -> Miner {
        Miner {
            position: Point { x: (config.screen_width as int / 2) as i32, y: config.miner_y },
            width: config.miner_width,
            height: config.miner_height,
        }
    }

    /// A miner of the configured size whose centre is at `(x, y)`.
    pub fn new(x: i32, y: i32, config: &Config) -> (miner: Miner)
        ensures
            miner == (Miner {
                position: Point { x, y },
                width: config.miner_width,
                height: config.miner_height,
            }),
    {
        Miner { position: Point { x, y }, width: config.miner_width, height: config.miner_height }
    }

    /// The miner one step to the left, but no further than the left edge lets
    /// its box go.
    pub open spec fn moved_left(self, config: Config) -> Miner {
        let x = if self.position.x - config.miner_step >= config.half_width() {
            self.position.x - config.miner_step
        } else {
            config.half_width()
        };
        Miner { position: Point { x: x as i32, y: self.position.y }, ..self }
    }

    /// The miner one step to the right, but no further than the right edge
    /// lets its box go.
    pub open spec fn moved_right(self, config: Config) -> Miner {
        let x = if self.position.x + config.miner_step <= config.screen_width
            - config.half_width() {
            self.position.x + config.miner_step
        } else {
            config.screen_width - config.half_width()
        };
        Miner { position: Point { x: x as i32, y: self.position.y }, ..self }
    }

    /// Moves the miner one step to the left, stopping at the edge.
    pub fn move_left(&mut self, config: &Config)
        requires
            config.wf(),
            old(self).wf(*config),
        ensures
            *final(self) == old(self).moved_left(*config),
            final(self).wf(*config),
            final(self).position.x >= config.half_width(),
    {
        let limit: i32 = config.miner_width / 2;
        if self.position.x - config.miner_step >= limit {
            self.position.x = self.position.x - config.miner_step;
        } else {
            self.position.x = limit;
        }
    }

    /// Moves the miner one step to the right, stopping at the edge.
    pub fn move_right(&mut self, config: &Config)
        requires
            config.wf(),
            old(self).wf(*config),
        ensures
            *final(self) == old(self).moved_right(*config),
            final(self).wf(*config),
            final(self).position.x <= config.screen_width - config.half_width(),
    {
        let limit: i32 = config.screen_width - config.miner_width / 2;
        if self.position.x + config.miner_step <= limit {
            self.position.x = self.position.x + config.miner_step;
        } else {
            self.position.x = limit;
        }
    }
}

} // verus!
