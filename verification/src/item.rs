//! The things that the hook can bring back.

use vstd::prelude::*;
use crate::config::Config;
use crate::geometry::Point;

verus! {

/// What an item is made of.
#[derive(Clone, Copy, Debug, PartialEq, Eq, Structural)]
pub enum ItemType {
    Gold,
    Silver,
    Diamond,
    Rock,
}

impl ItemType {
    /// The points that an item of this type is worth.
    pub open spec fn spec_value(self) -> int {
        match self {
            ItemType::Gold => 100,
            ItemType::Silver => 50,
            ItemType::Diamond => 200,
            ItemType::Rock => 10,
        }
    }

    /// The side of an item of this type: a rock is half again as large as the
    /// base size (rounded down), every other item has the base size.
    pub open spec fn spec_size(self, base: int) -> int {
        match self {
            ItemType::Rock => base * 3 / 2,
            _ => base,
        }
    }

    /// The type that stands at place `draw` in a table of ten equally likely
    /// draws: five of gold, three of silver, one diamond, one rock.
    pub open spec fn spec_from_draw(draw: int) -> ItemType {
        if draw <= 4 {
            ItemType::Gold
        } else if draw <= 7 {
            ItemType::Silver
        } else if draw == 8 {
            ItemType::Diamond
        } else {
            ItemType::Rock
        }
    }

    /// Looks a draw up in the table of types.
    pub fn from_draw(draw: i32) -> (item_type: ItemType)
        requires
            0 <= draw < 10,
        ensures
            item_type == ItemType::spec_from_draw(draw as int),
    {
        if draw <= 4 {
            ItemType::Gold
        } else if draw <= 7 {
            ItemType::Silver
        } else if draw == 8 {
            ItemType::Diamond
        } else {
            ItemType::Rock
        }
    }

    /// The points that an item of this type is worth.
    pub fn value(self) -> (v: u64)
        ensures
            v == self.spec_value(),
    {
        match self {
            ItemType::Gold => 100,
            ItemType::Silver => 50,
            ItemType::Diamond => 200,
            ItemType::Rock => 10,
        }
    }

    /// The side of an item of this type under `config`.
    pub fn size(self, config: &Config) -> (s: i32)
        requires
            config.wf(),
        ensures
            s == self.spec_size(config.item_size as int),
            0 < s,
    {
        match self {
            ItemType::Rock => config.item_size * 3 / 2,
            _ => config.item_size,
        }
    }
}

/// One item of a round.
#[derive(Clone, Copy, Debug, PartialEq, Eq, Structural)]
pub struct Item {
    pub item_type: ItemType,
    /// The item's centre. It never changes.
    pub position: Point,
    /// Whether the hook has taken hold of the item.
    pub collected: bool,
}

impl Item {
    /// An item that lies at `(x, y)` and has not been collected.
    pub fn new(item_type: ItemType, x: i32, y: i32) -> (item: Item)
        ensures
            item == (Item { item_type, position: Point { x, y }, collected: false }),
    {
        Item { item_type, position: Point { x, y }, collected: false }
    }

    /// The points that the item is worth.
    pub fn value(&self) -> (v: u64)
        ensures
            v == self.item_type.spec_value(),
    {
        self.item_type.value()
    }

    /// The side of the item under `config`.
    pub fn size(&self, config: &Config) -> (s: i32)
        requires
            config.wf(),
        ensures
            s == self.item_type.spec_size(config.item_size as int),
            0 < s,
    {
        self.item_type.size(config)
    }

    /// Whether the item is still to be had and its bounding box holds `tip`:
    /// on each axis the tip is less than half the item's side from its centre.
    pub open spec fn catches(self, tip: Point, base: int) -> bool {
        &&& !self.collected
        &&& 2 * vstd::math::abs(tip.x - self.position.x) < self.item_type.spec_size(base)
        &&& 2 * vstd::math::abs(tip.y - self.position.y) < self.item_type.spec_size(base)
    }

    /// Computes `catches`.
    pub fn is_caught(&self, tip: Point, config: &Config) -> (hit: bool)
        requires
            config.wf(),
        ensures
            hit == self.catches(tip, config.item_size as int),
    {
        if self.collected {
            return false;
        }
        let size: i64 = self.size(config) as i64;
        let dx: i64 = tip.x as i64 - self.position.x as i64;
        let dy: i64 = tip.y as i64 - self.position.y as i64;
        let reach_x: i64 = if dx < 0 { -dx } else { dx };
        let reach_y: i64 = if dy < 0 { -dy } else { dy };
        2 * reach_x < size && 2 * reach_y < size
    }

    /// The same item, marked as collected.
    pub open spec fn taken(self) -> Item {
        Item { collected: true, ..self }
    }
}

} // verus!
