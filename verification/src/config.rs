//! The parameters of a round.

use vstd::prelude::*;
use crate::geometry::{Point, COORD_MAX};

verus! {

/// The dimensions, speeds and durations that a round is played with.
#[derive(Clone, Copy, Debug, PartialEq, Eq, Structural)]
pub struct Config {
    /// Width of the play area.
    pub screen_width: i32,
    /// Height of the play area.
    pub screen_height: i32,
    /// Width of the miner.
    pub miner_width: i32,
    /// Height of the miner.
    pub miner_height: i32,
    /// The height at which the miner's centre stays.
    pub miner_y: i32,
    /// How far one move command shifts the miner.
    pub miner_step: i32,
    /// The greatest length that the hook reaches.
    pub hook_length: i32,
    /// How far the hook extends or retracts in one tick.
    pub hook_speed: i32,
    /// The side of an ordinary item.
    pub item_size: i32,
    /// How many items a round starts with.
    pub item_count: u32,
    /// The height of the strip at the top that is kept free of items.
    pub top_margin: i32,
    /// How long a round lasts, in milliseconds.
    pub round_ms: u64,
}

impl Config {
    /// The parameters are positive, fit the coordinate range, and leave room
    /// for the miner and for placing items.
    pub open spec fn wf(self) -> bool {
        &&& 0 < self.screen_width <= COORD_MAX
        &&& 0 < self.screen_height <= COORD_MAX
        &&& 0 < self.miner_width <= self.screen_width
        &&& 0 < self.miner_height
        &&& 0 <= self.miner_y <= self.screen_height
        &&& 0 < self.miner_step <= COORD_MAX
        &&& 0 < self.hook_length <= COORD_MAX
        &&& 0 < self.hook_speed <= COORD_MAX
        &&& 0 < self.item_size
        &&& self.item_size < self.screen_width - self.item_size
        &&& 0 <= self.top_margin
        &&& self.top_margin < self.screen_height - self.item_size
    }

    /// The parameters of the classic game: an 800 by 600 screen, a hook that
    /// reaches 200 at 5 per tick, twenty items of size 30, one minute.
    pub open spec fn classic() -> Config {
        Config {
            screen_width: 800,
            screen_height: 600,
            miner_width: 60,
            miner_height: 40,
            miner_y: 50,
            miner_step: 5,
            hook_length: 200,
            hook_speed: 5,
            item_size: 30,
            item_count: 20,
            top_margin: 100,
            round_ms: 60_000,
        }
    }

    /// Whether these parameters can be played with.
    pub fn is_valid(&self) -> (ok: bool)
        ensures
            ok == self.wf(),
    {
        0 < self.screen_width && self.screen_width <= COORD_MAX
            && 0 < self.screen_height && self.screen_height <= COORD_MAX
            && 0 < self.miner_width && self.miner_width <= self.screen_width
            && 0 < self.miner_height
            && 0 <= self.miner_y && self.miner_y <= self.screen_height
            && 0 < self.miner_step && self.miner_step <= COORD_MAX
            && 0 < self.hook_length && self.hook_length <= COORD_MAX
            && 0 < self.hook_speed && self.hook_speed <= COORD_MAX
            && 0 < self.item_size
            && self.item_size < self.screen_width - self.item_size
            && 0 <= self.top_margin
            && self.top_margin < self.screen_height - self.item_size
    }

    /// Whether `p` lies where items are placed: at least an item's size from
    /// the left, right and bottom edges, and below the top margin.
    pub open spec fn in_field(self, p: Point) -> bool {
        &&& self.item_size <= p.x < self.screen_width - self.item_size
        &&& self.top_margin <= p.y < self.screen_height - self.item_size
    }

    /// Half the miner's width, rounded down: how close the miner's centre
    /// comes to either edge of the screen.
    pub open spec fn half_width(self) -> int {
        self.miner_width as int / 2
    }
}

impl Default for Config {
    /// The classic parameters.
    fn default() -> (config: Config)
        ensures
            config == Config::classic(),
            config.wf(),
    {
        Config {
            screen_width: 800,
            screen_height: 600,
            miner_width: 60,
            miner_height: 40,
            miner_y: 50,
            miner_step: 5,
            hook_length: 200,
            hook_speed: 5,
            item_size: 30,
            item_count: 20,
            top_margin: 100,
            round_ms: 60_000,
        }
    }
}

} // verus!
