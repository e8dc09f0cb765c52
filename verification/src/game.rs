//! A round of the game: the miner, the hook, the items, the score and the
//! clock, and what a tick or a key does to them.

use vstd::prelude::*;
use crate::angle::Angle;
use crate::config::Config;
use crate::geometry::Point;
use crate::hook::Hook;
use crate::item::{Item, ItemType};
use crate::laws::{
    lemma_collected_value_bounds, lemma_key_down_preserves_wf, lemma_nothing_collected,
    lemma_update_preserves_wf,
};
use crate::miner::Miner;
use crate::random::gen_range;

verus! {

/// The most items that a round can hold.
pub const MAX_ITEMS: usize = 0xffff_ffff;

/// A key that the player pressed.
#[derive(Clone, Copy, Debug, PartialEq, Eq, Structural)]
pub enum Key {
    Left,
    Right,
    Space,
    /// Any key that the game does not use.
    Other,
}

/// A round in progress or over. Its parts are read through the methods of
/// the same names and change only by a tick or a key.
#[derive(Debug)]
pub struct GameState {
    config: Config,
    miner: Miner,
    hook: Hook,
    items: Vec<Item>,
    score: u64,
    start_time: u64,
    game_over: bool,
}

/// A round as a mathematical value.
pub struct GameView {
    pub config: Config,
    pub miner: Miner,
    pub hook: Hook,
    /// The items in the order in which they were created.
    pub items: Seq<Item>,
    pub score: int,
    /// When the round started, in milliseconds on the caller's clock.
    pub start_time: u64,
    pub game_over: bool,
}

/// What can happen to a round: the clock ticks, or the player presses a key.
pub enum Input {
    Tick { now: u64 },
    Key { key: Key, mouse: Point },
}

/// The time that has passed at `now` since `start`; none if the clock reads
/// less than it did at the start.
pub open spec fn elapsed(start: u64, now: u64) -> int {
    if now >= start {
        now - start
    } else {
        0
    }
}

/// The sum of the values of the collected items.
pub open spec fn collected_value(items: Seq<Item>) -> int
    decreases items.len(),
{
    if items.len() == 0 {
        0
    } else {
        collected_value(items.drop_last()) + if items.last().collected {
            items.last().item_type.spec_value()
        } else {
            0
        }
    }
}

/// The same items, none of them collected.
pub open spec fn uncollected(items: Seq<Item>) -> Seq<Item> {
    Seq::new(items.len(), |i: int| Item { collected: false, ..items[i] })
}

impl GameView {
    /// The value of the item that the hook carries and that is yet to be
    /// credited.
    pub open spec fn pending(self) -> int {
        match self.hook.attached_item {
            Some(i) => if i < self.items.len() {
                self.items[i as int].item_type.spec_value()
            } else {
                0
            },
            None => 0,
        }
    }

    /// The parts are well formed under the configuration, the hook carries
    /// only an item that exists and is marked collected, and every collected
    /// item has been credited once, or is on the hook and has not been yet.
    pub open spec fn wf(self) -> bool {
        &&& self.config.wf()
        &&& self.miner.wf(self.config)
        &&& self.hook.wf(self.config)
        &&& self.items.len() <= MAX_ITEMS
        &&& self.hook.attached_item matches Some(i) ==> i < self.items.len()
            && self.items[i as int].collected
        &&& 0 <= self.score
        &&& self.score + self.pending() == collected_value(self.items)
    }

    /// The start of a round over `items`.
    pub open spec fn fresh(config: Config, items: Seq<Item>, start_time: u64) -> GameView {
        GameView {
            config,
            miner: Miner::centred(config),
            hook: Hook::resting(),
            items,
            score: 0,
            start_time,
            game_over: false,
        }
    }

    /// What a tick credits: the value of the item that the hook lets go of.
    pub open spec fn credit(self) -> int {
        match self.hook.released(self.config) {
            Some(i) => if i < self.items.len() {
                self.items[i as int].item_type.spec_value()
            } else {
                0
            },
            None => 0,
        }
    }

    /// The round after a tick at time `now`. A round that is over stays as it
    /// is. A round whose time is up is over, and nothing else changes. In any
    /// other tick the hook advances, its tip is tested against the items, and
    /// what it let go of is credited.
    pub open spec fn update(self, now: u64) -> GameView {
        if self.game_over {
            self
        } else if elapsed(self.start_time, now) >= self.config.round_ms {
            GameView { game_over: true, ..self }
        } else {
            let hook = self.hook.updated(self.config);
            GameView {
                hook: hook.after_collision(self.miner.position, self.items, self.config),
                items: hook.items_after_collision(self.miner.position, self.items, self.config),
                score: self.score + self.credit(),
                ..self
            }
        }
    }

    /// The round after a key. Left and right move the miner, space throws the
    /// hook from the miner towards `mouse`; any other key, and any key once
    /// the round is over, does nothing.
    pub open spec fn key_down(self, key: Key, mouse: Point) -> GameView {
        if self.game_over {
            self
        } else {
            match key {
                Key::Left => GameView { miner: self.miner.moved_left(self.config), ..self },
                Key::Right => GameView { miner: self.miner.moved_right(self.config), ..self },
                Key::Space => GameView {
                    hook: self.hook.thrown(Angle::spec_towards(self.miner.position, mouse)),
                    ..self
                },
                Key::Other => self,
            }
        }
    }

    /// The round after one input.
    pub open spec fn step(self, input: Input) -> GameView {
        match input {
            Input::Tick { now } => self.update(now),
            Input::Key { key, mouse } => self.key_down(key, mouse),
        }
    }

    /// The round after a sequence of inputs, first to last.
    pub open spec fn play(self, inputs: Seq<Input>) -> GameView
        decreases inputs.len(),
    {
        if inputs.len() == 0 {
            self
        } else {
            self.play(inputs.drop_last()).step(inputs.last())
        }
    }

    /// Whether `input` is a tick at which the round's time is up.
    pub open spec fn expires_at(self, input: Input) -> bool {
        input matches Input::Tick { now } && elapsed(self.start_time, now) >= self.config.round_ms
    }

    /// The time that is left of the round at `now`.
    pub open spec fn time_left(self, now: u64) -> int {
        if elapsed(self.start_time, now) >= self.config.round_ms {
            0
        } else {
            self.config.round_ms - elapsed(self.start_time, now)
        }
    }
}

impl View for GameState {
    type V = GameView;

    closed spec fn view(&self) -> GameView {
        GameView {
            config: self.config,
            miner: self.miner,
            hook: self.hook,
            items: self.items@,
            score: self.score as int,
            start_time: self.start_time,
            game_over: self.game_over,
        }
    }
}

impl GameState {
    /// The round is well formed as a mathematical value.
    pub open spec fn wf(&self) -> bool {
        self@.wf()
    }

    /// Starts a round at `start_time` over the given items, each of which
    /// starts out uncollected. The miner stands in the middle, the hook is at
    /// rest, the score is zero.
    pub fn with_items(config: Config, items: Vec<Item>, start_time: u64) -> (state: GameState)
        requires
            config.wf(),
            items.len() <= MAX_ITEMS,
        ensures
            state@ == GameView::fresh(config, uncollected(items@), start_time),
            state.wf(),
    {
        let ghost given = items@;
        let mut items = items;
        let mut i: usize = 0;
        while i < items.len()
            invariant
                i <= items.len(),
                items.len() == given.len(),
                forall|j: int| 0 <= j < i ==> #[trigger] items@[j] == uncollected(given)[j],
                forall|j: int| i <= j < items.len() ==> #[trigger] items@[j] == given[j],
            decreases items.len() - i,
        {
            let mut item = items[i];
            item.collected = false;
            items.set(i, item);
            i += 1;
        }
        assert(items@ =~= uncollected(given));
        proof {
            lemma_nothing_collected(items@);
        }
        GameState {
            config,
            miner: Miner::new(config.screen_width / 2, config.miner_y, &config),
            hook: Hook::new(),
            items,
            score: 0,
            start_time,
            game_over: false,
        }
    }

    /// Starts a round at `start_time` with as many items as `config` asks for.
    /// The type and the place of each item are drawn at random: the type from
    /// the table of ten draws, the place from the field that `config` leaves
    /// for items.
    pub fn new(config: Config, start_time: u64) -> (state: GameState)
        requires
            config.wf(),
        ensures
            state.wf(),
            state@ == GameView::fresh(config, state@.items, start_time),
            state@.items.len() == config.item_count,
            forall|i: int|
                0 <= i < state@.items.len() ==> !(#[trigger] state@.items[i]).collected
                    && config.in_field(state@.items[i].position),
    {
        let mut rng = rand::thread_rng();
        let mut items: Vec<Item> = Vec::new();
        let mut n: u32 = 0;
        while n < config.item_count
            invariant
                config.wf(),
                n <= config.item_count,
                items.len() == n,
                forall|i: int|
                    0 <= i < items.len() ==> !(#[trigger] items@[i]).collected && config.in_field(
                        items@[i].position,
                    ),
            decreases config.item_count - n,
        {
            let item_type = ItemType::from_draw(gen_range(&mut rng, 0, 10));
            let x: i32 = gen_range(
                &mut rng,
                config.item_size,
                config.screen_width - config.item_size,
            );
            let y: i32 = gen_range(
                &mut rng,
                config.top_margin,
                config.screen_height - config.item_size,
            );
            items.push(Item::new(item_type, x, y));
            n += 1;
        }
        assert(uncollected(items@) =~= items@);
        GameState::with_items(config, items, start_time)
    }

    /// The time that has passed since the round started, in milliseconds.
    fn elapsed_at(&self, now: u64) -> (ms: u64)
        ensures
            ms == elapsed(self.start_time, now),
    {
        if now >= self.start_time {
            now - self.start_time
        } else {
            0
        }
    }

    /// Advances the round by one tick at time `now`.
    pub fn update(&mut self, now: u64)
        requires
            old(self).wf(),
        ensures
            final(self)@ == old(self)@.update(now),
            final(self).wf(),
    {
        if self.game_over {
            return ;
        }
        if self.elapsed_at(now) >= self.config.round_ms {
            self.game_over = true;
            return ;
        }
        proof {
            lemma_update_preserves_wf(old(self)@, now);
            lemma_collected_value_bounds(self.items@);
        }
        let config = self.config;
        let origin = self.miner.position;
        let released = self.hook.update(&config);
        self.hook.check_collision(origin, &mut self.items, &config);
        match released {
            Some(i) => {
                if i < self.items.len() {
                    self.score = self.score + self.items[i].value();
                }
            },
            None => {},
        }
    }

    /// Handles a key. `mouse` is where the pointer is: space throws the hook
    /// towards it.
    pub fn key_down_event(&mut self, key: Key, mouse: Point)
        requires
            old(self).wf(),
        ensures
            final(self)@ == old(self)@.key_down(key, mouse),
            final(self).wf(),
    {
        if self.game_over {
            return ;
        }
        proof {
            lemma_key_down_preserves_wf(self@, key, mouse);
        }
        let config = self.config;
        match key {
            Key::Left => {
                self.miner.move_left(&config);
            },
            Key::Right => {
                self.miner.move_right(&config);
            },
            Key::Space => {
                self.hook.throw(Angle::towards(self.miner.position, mouse));
            },
            Key::Other => {},
        }
    }

    /// The time that is left of the round at `now`, in milliseconds.
    pub fn time_left(&self, now: u64) -> (ms: u64)
        ensures
            ms == self@.time_left(now),
    {
        let passed: u64 = self.elapsed_at(now);
        if passed >= self.config.round_ms {
            0
        } else {
            self.config.round_ms - passed
        }
    }

    /// Where the tip of the hook is on the screen.
    pub fn hook_position(&self) -> (p: Point)
        requires
            self.wf(),
        ensures
            p == self@.hook.tip(self@.miner.position),
    {
        self.hook.position(self.miner.position, &self.config)
    }

    /// The parameters that the round is played with.
    pub fn config(&self) -> (config: Config)
        ensures
            config == self@.config,
    {
        self.config
    }

    /// The miner.
    pub fn miner(&self) -> (miner: Miner)
        ensures
            miner == self@.miner,
    {
        self.miner
    }

    /// The hook.
    pub fn hook(&self) -> (hook: Hook)
        ensures
            hook == self@.hook,
    {
        self.hook
    }

    /// The items, in the order in which they were created.
    pub fn items(&self) -> (items: &Vec<Item>)
        ensures
            items@ == self@.items,
    {
        &self.items
    }

    /// The points scored so far.
    pub fn score(&self) -> (score: u64)
        ensures
            score == self@.score,
    {
        self.score
    }

    /// When the round started, in milliseconds on the caller's clock.
    pub fn start_time(&self) -> (start_time: u64)
        ensures
            start_time == self@.start_time,
    {
        self.start_time
    }

    /// Whether the round is over.
    pub fn game_over(&self) -> (over: bool)
        ensures
            over == self@.game_over,
    {
        self.game_over
    }
}

} // verus!
