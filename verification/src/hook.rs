//! The hook: a state machine that extends, takes hold of an item and retracts.

use vstd::prelude::*;
use crate::angle::Angle;
use crate::config::Config;
use crate::geometry::{Point, UNIT};
use crate::item::Item;

verus! {

/// What the hook is doing.
#[derive(Clone, Copy, Debug, PartialEq, Eq, Structural)]
pub enum HookState {
    /// At rest at the miner.
    Idle,
    /// On its way out.
    Thrown,
    /// On its way back.
    Retracting,
}

/// The hook. Where its tip is follows from the angle, the length and the
/// miner's position, and is computed when asked for.
#[derive(Clone, Copy, Debug, PartialEq, Eq)]
pub struct Hook {
    /// The direction of the last throw.
    pub angle: Angle,
    /// How far the hook is out.
    pub length: i32,
    pub state: HookState,
    /// The index of the item that the hook carries, if it carries one.
    pub attached_item: Option<usize>,
}

/// Whether `i` is the place of the first item, in the order of `items`, that
/// catches `tip`.
pub open spec fn is_first_catch(items: Seq<Item>, tip: Point, base: int, i: int) -> bool {
    &&& 0 <= i < items.len()
    &&& items[i].catches(tip, base)
    &&& forall|j: int| 0 <= j < i ==> !(#[trigger] items[j].catches(tip, base))
}

/// The place of the first item that catches `tip`, if any item does.
pub open spec fn first_catch(items: Seq<Item>, tip: Point, base: int) -> Option<int> {
    if exists|i: int| is_first_catch(items, tip, base, i) {
        Some(choose|i: int| is_first_catch(items, tip, base, i))
    } else {
        None
    }
}

/// Of the items that catch the tip, the one that was created first is the one
/// that `first_catch` names: no item before it catches the tip, and whatever
/// else does comes after it.
pub proof fn lemma_first_catch_is_lowest(items: Seq<Item>, tip: Point, base: int, j: int)
    requires
        0 <= j < items.len(),
        items[j].catches(tip, base),
    ensures
        first_catch(items, tip, base) matches Some(i) && is_first_catch(items, tip, base, i) && i
            <= j,
    decreases j,
{
    if exists|k: int| 0 <= k < j && #[trigger] items[k].catches(tip, base) {
        let k = choose|k: int| 0 <= k < j && #[trigger] items[k].catches(tip, base);
        lemma_first_catch_is_lowest(items, tip, base, k);
    } else {
        assert(is_first_catch(items, tip, base, j));
        let i = first_catch(items, tip, base)->0;
        assert(is_first_catch(items, tip, base, i));
    }
}

/// At most one place is that of the first catch.
pub proof fn lemma_first_catch_unique(items: Seq<Item>, tip: Point, base: int, i: int)
    requires
        is_first_catch(items, tip, base, i),
    ensures
        first_catch(items, tip, base) == Some(i),
{
    let k = first_catch(items, tip, base)->0;
    assert(is_first_catch(items, tip, base, k));
    assert(k == i);
}

/// Which item is caught first depends on that item and on those before it
/// alone: whatever items follow, and in whatever order, the same one is caught.
pub proof fn lemma_first_catch_ignores_later(
    items: Seq<Item>,
    others: Seq<Item>,
    tip: Point,
    base: int,
    i: int,
)
    requires
        first_catch(items, tip, base) == Some(i),
        i < others.len(),
        forall|j: int| 0 <= j <= i ==> others[j] == items[j],
    ensures
        first_catch(others, tip, base) == Some(i),
{
    assert(is_first_catch(items, tip, base, i));
    assert(is_first_catch(others, tip, base, i));
    lemma_first_catch_unique(others, tip, base, i);
}

impl Hook {
    /// The length is within the hook's reach, and a hook at rest is fully in
    /// and carries nothing.
    pub open spec fn wf(self, config: Config) -> bool {
        &&& self.angle.wf()
        &&& 0 <= self.length <= config.hook_length
        &&& self.state is Idle ==> self.length == 0 && self.attached_item is None
    }

    /// The hook before its first throw: at rest, pointing down.
    pub open spec fn resting() -> Hook {
        Hook {
            angle: Angle { cos: 0, sin: UNIT },
            length: 0,
            state: HookState::Idle,
            attached_item: None,
        }
    }

    /// A hook at rest.
    pub fn new() -> (hook: Hook)
        ensures
            hook == Hook::resting(),
    {
        Hook { angle: Angle::down(), length: 0, state: HookState::Idle, attached_item: None }
    }

    /// The hook one tick later. At rest it stays as it is. On its way out it
    /// extends by the hook speed, and turns back once it has reached its full
    /// length, beyond which it never goes. On its way back it retracts by the
    /// hook speed; once fully in it is at rest again and carries nothing.
    pub open spec fn updated(self, config: Config) -> Hook {
        match self.state {
            HookState::Idle => Hook { length: 0, ..self },
            HookState::Thrown => if self.length + config.hook_speed >= config.hook_length {
                Hook { length: config.hook_length, state: HookState::Retracting, ..self }
            } else {
                Hook { length: (self.length + config.hook_speed) as i32, ..self }
            },
            HookState::Retracting => if self.length - config.hook_speed <= 0 {
                Hook { length: 0, state: HookState::Idle, attached_item: None, ..self }
            } else {
                Hook { length: (self.length - config.hook_speed) as i32, ..self }
            },
        }
    }

    /// What the hook lets go of in the tick that `updated` describes: the item
    /// it carried, in the tick in which it comes to rest.
    pub open spec fn released(self, config: Config) -> Option<usize> {
        if self.state is Retracting && self.length - config.hook_speed <= 0 {
            self.attached_item
        } else {
            None
        }
    }

    /// Advances the hook by one tick and returns the item that it let go of,
    /// if it came to rest carrying one.
    pub fn update(&mut self, config: &Config) -> (released: Option<usize>)
        requires
            config.wf(),
            old(self).wf(*config),
        ensures
            *final(self) == old(self).updated(*config),
            released == old(self).released(*config),
            final(self).wf(*config),
    {
        match self.state {
            HookState::Idle => {
                self.length = 0;
                None
            },
            HookState::Thrown => {
                if self.length + config.hook_speed >= config.hook_length {
                    self.length = config.hook_length;
                    self.state = HookState::Retracting;
                } else {
                    self.length = self.length + config.hook_speed;
                }
                None
            },
            HookState::Retracting => {
                if self.length - config.hook_speed <= 0 {
                    let released = self.attached_item;
                    self.length = 0;
                    self.state = HookState::Idle;
                    self.attached_item = None;
                    released
                } else {
                    self.length = self.length - config.hook_speed;
                    None
                }
            },
        }
    }

    /// The hook after a throw command: a hook at rest sets out in the given
    /// direction, any other hook ignores the command.
    pub open spec fn thrown(self, angle: Angle) -> Hook {
        if self.state is Idle {
            Hook { angle, length: 0, state: HookState::Thrown, attached_item: None }
        } else {
            self
        }
    }

    /// Throws the hook at `angle` if it is at rest, and does nothing otherwise.
    pub fn throw(&mut self, angle: Angle)
        ensures
            *final(self) == old(self).thrown(angle),
    {
        match self.state {
            HookState::Idle => {
                self.angle = angle;
                self.state = HookState::Thrown;
                self.length = 0;
                self.attached_item = None;
            },
            _ => {},
        }
    }

    /// Where the tip is when the miner stands at `origin`.
    pub open spec fn tip(self, origin: Point) -> Point {
        self.angle.project(origin, self.length as int)
    }

    /// Computes `tip`.
    pub fn position(&self, origin: Point, config: &Config) -> (p: Point)
        requires
            config.wf(),
            self.wf(*config),
            origin.in_range(),
        ensures
            p == self.tip(origin),
    {
        self.angle.offset(origin, self.length)
    }

    /// The place of the item that the hook takes hold of when its tip is
    /// tested against `items`: the first that catches the tip, and none
    /// unless the hook is on its way out and empty.
    pub open spec fn catch_at(self, origin: Point, items: Seq<Item>, config: Config) -> Option<
        int,
    > {
        if self.state is Thrown && self.attached_item is None {
            first_catch(items, self.tip(origin), config.item_size as int)
        } else {
            None
        }
    }

    /// The hook after the test: with an item in its hold it turns back at once.
    pub open spec fn after_collision(self, origin: Point, items: Seq<Item>, config: Config) -> Hook {
        match self.catch_at(origin, items, config) {
            Some(i) => Hook {
                state: HookState::Retracting,
                attached_item: Some(i as usize),
                ..self
            },
            None => self,
        }
    }

    /// The items after the test: the one that was caught is marked collected.
    pub open spec fn items_after_collision(
        self,
        origin: Point,
        items: Seq<Item>,
        config: Config,
    ) -> Seq<Item> {
        match self.catch_at(origin, items, config) {
            Some(i) => items.update(i, items[i].taken()),
            None => items,
        }
    }

    /// Tests the tip against the items, in their order, while the hook is on
    /// its way out and empty. The first item that catches the tip is marked
    /// collected and attached, and the hook turns back.
    pub fn check_collision(&mut self, origin: Point, items: &mut Vec<Item>, config: &Config)
        requires
            config.wf(),
            old(self).wf(*config),
            origin.in_range(),
        ensures
            *final(self) == old(self).after_collision(origin, old(items)@, *config),
            final(items)@ == old(self).items_after_collision(origin, old(items)@, *config),
            final(self).wf(*config),
    {
        match self.state {
            HookState::Thrown => {},
            _ => {
                return ;
            },
        }
        if self.attached_item.is_some() {
            return ;
        }
        let tip = self.position(origin, config);
        let ghost base = config.item_size as int;
        let mut i: usize = 0;
        while i < items.len()
            invariant
                config.wf(),
                base == config.item_size as int,
                i <= items.len(),
                items@ == old(items)@,
                *self == *old(self),
                self.wf(*config),
                self.state is Thrown,
                self.attached_item is None,
                tip == self.tip(origin),
                forall|j: int| 0 <= j < i ==> !(#[trigger] items@[j].catches(tip, base)),
            decreases items.len() - i,
        {
            if items[i].is_caught(tip, config) {
                proof {
                    lemma_first_catch_unique(items@, tip, base, i as int);
                }
                let mut item = items[i];
                item.collected = true;
                items.set(i, item);
                self.attached_item = Some(i);
                self.state = HookState::Retracting;
                return ;
            }
            i += 1;
        }
        assert(first_catch(items@, tip, base) is None) by {
            if exists|k: int| is_first_catch(items@, tip, base, k) {
                let k = choose|k: int| is_first_catch(items@, tip, base, k);
                assert(!items@[k].catches(tip, base));
            }
        }
    }
}

} // verus!
