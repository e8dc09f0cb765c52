use gold_miner::config::Config;
use gold_miner::game::{GameState, Key, MAX_ITEMS};
use gold_miner::angle::Angle;
use gold_miner::geometry::Point;
use gold_miner::hook::{Hook, HookState};
use gold_miner::item::{Item, ItemType};
use gold_miner::miner::Miner;

/// A point straight to the right of the miner, who stays at height 50.
const RIGHT: Point = Point { x: 790, y: 50 };
/// A point straight to the left of the miner.
const LEFT: Point = Point { x: 10, y: 50 };

/// A point straight below the miner.
fn below(state: &GameState) -> Point {
    Point { x: state.miner().position.x, y: 500 }
}

fn round_with(items: Vec<Item>) -> GameState {
    GameState::with_items(Config::default(), items, 1_000)
}

fn tick(state: &mut GameState, times: u32) {
    for _ in 0..times {
        state.update(1_016);
    }
}

#[test]
fn round_starts_centred_idle_and_at_zero() {
    let state = round_with(vec![Item::new(ItemType::Gold, 500, 300)]);
    assert_eq!(state.config(), Config::default());
    assert_eq!(state.miner(), Miner::new(400, 50, &Config::default()));
    assert_eq!(state.hook(), Hook::new());
    assert_eq!(*state.items(), vec![Item::new(ItemType::Gold, 500, 300)]);
    assert_eq!(state.score(), 0);
    assert_eq!(state.start_time(), 1_000);
    assert!(!state.game_over());
    assert_eq!(state.hook_position(), Point { x: 400, y: 50 });
}

#[test]
fn round_starts_with_every_item_uncollected() {
    let mut taken = Item::new(ItemType::Rock, 200, 300);
    taken.collected = true;
    let state = round_with(vec![Item::new(ItemType::Gold, 500, 300), taken]);
    assert_eq!(
        *state.items(),
        vec![Item::new(ItemType::Gold, 500, 300), Item::new(ItemType::Rock, 200, 300)]
    );
    assert_eq!(state.score(), 0);
}

#[test]
fn item_limit_is_the_largest_u32() {
    assert_eq!(MAX_ITEMS as u64, 4_294_967_295);
}

#[test]
fn new_round_scatters_the_configured_items() {
    let config = Config::default();
    let state = GameState::new(config, 77);
    assert_eq!(state.items().len(), 20);
    for item in state.items().iter() {
        assert!(!item.collected);
        assert!(30 <= item.position.x && item.position.x < 770);
        assert!(100 <= item.position.y && item.position.y < 570);
    }
    assert_eq!(state.miner(), Miner::new(400, 50, &config));
    assert_eq!(state.hook(), Hook::new());
    assert_eq!(state.score(), 0);
    assert_eq!(state.start_time(), 77);
    assert!(!state.game_over());
}

#[test]
fn new_round_in_a_small_field() {
    let config = Config {
        screen_width: 100,
        screen_height: 80,
        miner_width: 10,
        miner_y: 5,
        item_size: 10,
        item_count: 50,
        top_margin: 69,
        ..Config::default()
    };
    assert!(config.is_valid());
    let state = GameState::new(config, 0);
    assert_eq!(state.items().len(), 50);
    for item in state.items().iter() {
        assert!(10 <= item.position.x && item.position.x < 90);
        assert_eq!(item.position.y, 69);
    }
    assert_eq!(state.miner().position, Point { x: 50, y: 5 });
}

#[test]
fn new_round_without_items() {
    let config = Config { item_count: 0, ..Config::default() };
    let state = GameState::new(config, 0);
    assert!(state.items().is_empty());
}

#[test]
fn new_round_draws_differ() {
    let config = Config { item_count: 400, ..Config::default() };
    let state = GameState::new(config, 0);
    let first = state.items()[0];
    assert!(state.items().iter().any(|item| item.position.x != first.position.x));
    assert!(state.items().iter().any(|item| item.position.y != first.position.y));
    assert!(state.items().iter().any(|item| item.position.x != config.item_size));
    assert!(state.items().iter().any(|item| item.position.y != config.top_margin));
    assert!(state.items().iter().any(|item| item.item_type != ItemType::Gold));
    assert!(state.items().iter().any(|item| item.item_type == ItemType::Gold));
}

#[test]
fn hook_catches_item_mid_extension_and_scores_on_return() {
    let mut state = round_with(vec![Item::new(ItemType::Gold, 500, 50)]);
    state.key_down_event(Key::Space, RIGHT);
    assert_eq!(state.hook().state, HookState::Thrown);
    tick(&mut state, 17);
    assert_eq!(state.hook().length, 85);
    assert_eq!(state.hook().state, HookState::Thrown);
    assert_eq!(state.hook().attached_item, None);
    assert!(!state.items()[0].collected);

    tick(&mut state, 1);
    assert_eq!(state.hook().length, 90);
    assert_eq!(state.hook().state, HookState::Retracting);
    assert_eq!(state.hook().attached_item, Some(0));
    assert!(state.items()[0].collected);
    assert_eq!(state.hook_position(), Point { x: 490, y: 50 });
    assert_eq!(state.score(), 0);

    for step in 1..18 {
        tick(&mut state, 1);
        assert_eq!(state.hook().length, 90 - 5 * step);
        assert_eq!(state.hook().state, HookState::Retracting);
        assert_eq!(state.hook().attached_item, Some(0));
        assert_eq!(state.score(), 0);
    }

    tick(&mut state, 1);
    assert_eq!(state.hook().length, 0);
    assert_eq!(state.hook().state, HookState::Idle);
    assert_eq!(state.hook().attached_item, None);
    assert_eq!(state.score(), 100);
}

#[test]
fn item_is_credited_once() {
    let mut state = round_with(vec![Item::new(ItemType::Gold, 500, 50)]);
    state.key_down_event(Key::Space, RIGHT);
    tick(&mut state, 36);
    assert_eq!(state.score(), 100);
    tick(&mut state, 10);
    assert_eq!(state.score(), 100);
    // A second swing along the same line passes the collected item by.
    state.key_down_event(Key::Space, RIGHT);
    for _ in 0..80 {
        tick(&mut state, 1);
        assert_eq!(state.hook().attached_item, None);
        assert_eq!(state.score(), 100);
    }
    assert_eq!(state.hook().state, HookState::Idle);
}

#[test]
fn score_adds_up_over_items() {
    let mut state = round_with(vec![
        Item::new(ItemType::Rock, 420, 50),
        Item::new(ItemType::Diamond, 400, 150),
        Item::new(ItemType::Silver, 300, 50),
    ]);
    state.key_down_event(Key::Space, RIGHT);
    tick(&mut state, 80);
    assert_eq!(state.hook().state, HookState::Idle);
    assert_eq!(state.score(), 10);
    let target = below(&state);
    state.key_down_event(Key::Space, target);
    tick(&mut state, 80);
    assert_eq!(state.score(), 210);
    state.key_down_event(Key::Space, LEFT);
    tick(&mut state, 80);
    assert_eq!(state.score(), 260);
    assert!(state.items().iter().all(|item| item.collected));
}

#[test]
fn hook_with_nothing_in_range_goes_out_and_back() {
    let mut state = round_with(vec![Item::new(ItemType::Gold, 100, 500)]);
    state.key_down_event(Key::Space, RIGHT);
    for step in 1..40 {
        tick(&mut state, 1);
        assert_eq!(state.hook().length, 5 * step);
        assert_eq!(state.hook().state, HookState::Thrown);
        assert_eq!(state.hook().attached_item, None);
    }
    tick(&mut state, 1);
    assert_eq!(state.hook().length, 200);
    assert_eq!(state.hook().state, HookState::Retracting);
    assert_eq!(state.hook().attached_item, None);
    for step in 1..40 {
        tick(&mut state, 1);
        assert_eq!(state.hook().length, 200 - 5 * step);
        assert_eq!(state.hook().state, HookState::Retracting);
        assert_eq!(state.hook().attached_item, None);
    }
    tick(&mut state, 1);
    assert_eq!(state.hook().length, 0);
    assert_eq!(state.hook().state, HookState::Idle);
    assert_eq!(state.hook().attached_item, None);
    assert_eq!(state.score(), 0);
    assert!(!state.items()[0].collected);
}

#[test]
fn no_catch_at_the_turning_point() {
    // The tip reaches the item only in the tick in which the hook turns back.
    let mut state = round_with(vec![Item::new(ItemType::Gold, 614, 50)]);
    state.key_down_event(Key::Space, RIGHT);
    tick(&mut state, 80);
    assert_eq!(state.hook().state, HookState::Idle);
    assert!(!state.items()[0].collected);
    assert_eq!(state.score(), 0);
}

#[test]
fn throw_in_flight_is_ignored_by_the_round() {
    let mut state = round_with(Vec::new());
    state.key_down_event(Key::Space, RIGHT);
    tick(&mut state, 4);
    let before = state.hook();
    let target = below(&state);
    state.key_down_event(Key::Space, target);
    assert_eq!(state.hook(), before);
    assert_eq!(state.hook().angle, Angle::right());
    assert_eq!(state.hook().length, 20);
}

#[test]
fn keys_move_the_miner_and_the_hook_goes_along() {
    let mut state = round_with(Vec::new());
    state.key_down_event(Key::Left, RIGHT);
    assert_eq!(state.miner().position, Point { x: 395, y: 50 });
    state.key_down_event(Key::Right, RIGHT);
    state.key_down_event(Key::Right, RIGHT);
    assert_eq!(state.miner().position, Point { x: 405, y: 50 });
    assert_eq!(state.hook(), Hook::new());
    let target = below(&state);
    state.key_down_event(Key::Space, target);
    tick(&mut state, 2);
    assert_eq!(state.hook_position(), Point { x: 405, y: 60 });
    state.key_down_event(Key::Left, RIGHT);
    assert_eq!(state.hook_position(), Point { x: 400, y: 60 });
}

#[test]
fn other_keys_do_nothing() {
    let mut state = round_with(vec![Item::new(ItemType::Gold, 500, 300)]);
    state.key_down_event(Key::Other, RIGHT);
    assert_eq!(state.miner().position, Point { x: 400, y: 50 });
    assert_eq!(state.hook(), Hook::new());
    assert_eq!(state.score(), 0);
    assert!(!state.game_over());
}

#[test]
fn miner_in_a_round_stops_at_the_left_edge() {
    let mut state = round_with(Vec::new());
    for _ in 0..100 {
        state.key_down_event(Key::Left, RIGHT);
        assert!(state.miner().position.x >= 30);
    }
    assert_eq!(state.miner().position.x, 30);
}

#[test]
fn round_ends_when_its_time_is_up() {
    let mut state = round_with(Vec::new());
    state.update(60_999);
    assert!(!state.game_over());
    state.update(61_000);
    assert!(state.game_over());
    state.update(61_001);
    assert!(state.game_over());
    state.update(0);
    assert!(state.game_over());
}

#[test]
fn the_tick_that_ends_the_round_changes_nothing_else() {
    let mut state = round_with(vec![Item::new(ItemType::Gold, 500, 50)]);
    state.key_down_event(Key::Space, RIGHT);
    tick(&mut state, 17);
    let hook = state.hook();
    let items = state.items().clone();
    state.update(61_000);
    assert!(state.game_over());
    assert_eq!(state.hook(), hook);
    assert_eq!(*state.items(), items);
    assert_eq!(state.score(), 0);
}

#[test]
fn nothing_changes_once_the_round_is_over() {
    let mut state = round_with(vec![Item::new(ItemType::Gold, 500, 50)]);
    state.key_down_event(Key::Space, RIGHT);
    tick(&mut state, 20);
    assert_eq!(state.hook().attached_item, Some(0));
    state.update(70_000);
    assert!(state.game_over());
    let hook = state.hook();
    let miner = state.miner();
    let items = state.items().clone();
    for now in [1_016u64, 70_001, 80_000, 0] {
        state.update(now);
        state.key_down_event(Key::Left, RIGHT);
        state.key_down_event(Key::Right, RIGHT);
        let target = below(&state);
        state.key_down_event(Key::Space, target);
        assert!(state.game_over());
        assert_eq!(state.hook(), hook);
        assert_eq!(state.miner(), miner);
        assert_eq!(*state.items(), items);
        assert_eq!(state.score(), 0);
    }
}

#[test]
fn clock_that_reads_less_than_at_the_start_counts_as_no_time() {
    let mut state = round_with(Vec::new());
    state.key_down_event(Key::Space, RIGHT);
    state.update(500);
    assert!(!state.game_over());
    assert_eq!(state.hook().length, 5);
    assert_eq!(state.time_left(500), 60_000);
}

#[test]
fn round_of_no_length_is_over_at_the_first_tick() {
    let config = Config { round_ms: 0, ..Config::default() };
    let mut state = GameState::with_items(config, Vec::new(), 10);
    state.key_down_event(Key::Space, RIGHT);
    state.update(10);
    assert!(state.game_over());
    assert_eq!(state.hook().length, 0);
}

#[test]
fn time_left_counts_down_to_zero() {
    let state = round_with(Vec::new());
    assert_eq!(state.time_left(1_000), 60_000);
    assert_eq!(state.time_left(1_001), 59_999);
    assert_eq!(state.time_left(31_000), 30_000);
    assert_eq!(state.time_left(60_999), 1);
    assert_eq!(state.time_left(61_000), 0);
    assert_eq!(state.time_left(u64::MAX), 0);
}

#[test]
fn alternate_parameters_make_a_faster_game() {
    let config = Config { hook_length: 60, hook_speed: 20, ..Config::default() };
    assert!(config.is_valid());
    let mut state =
        GameState::with_items(config, vec![Item::new(ItemType::Diamond, 400, 100)], 0);
    let target = below(&state);
    state.key_down_event(Key::Space, target);
    state.update(1);
    assert_eq!(state.hook().length, 20);
    assert_eq!(state.hook().attached_item, None);
    state.update(2);
    assert_eq!(state.hook().length, 40);
    assert_eq!(state.hook().attached_item, Some(0));
    assert_eq!(state.hook().state, HookState::Retracting);
    state.update(3);
    assert_eq!(state.score(), 0);
    state.update(4);
    assert_eq!(state.score(), 200);
    assert_eq!(state.hook().state, HookState::Idle);
}

#[test]
fn space_throws_towards_the_mouse() {
    let mut state = round_with(Vec::new());
    state.key_down_event(Key::Space, Point { x: 430, y: 90 });
    assert_eq!(state.hook().state, HookState::Thrown);
    assert_eq!(state.hook().angle, Angle { cos: 39321, sin: 52428 });
    tick(&mut state, 10);
    assert_eq!(state.hook().length, 50);
    assert_eq!(state.hook_position(), Point { x: 429, y: 89 });
}

#[test]
fn space_with_the_mouse_on_the_miner_throws_to_the_right() {
    let mut state = round_with(Vec::new());
    state.key_down_event(Key::Space, Point { x: 400, y: 50 });
    assert_eq!(state.hook().state, HookState::Thrown);
    assert_eq!(state.hook().angle, Angle::right());
}
