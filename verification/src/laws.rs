//! What holds of every round, proved from the definitions of a tick and a key.

use vstd::prelude::*;
use crate::angle::lemma_towards_wf;
use crate::game::{collected_value, elapsed, GameView, Input, Key};
use crate::geometry::Point;
use crate::item::Item;

verus! {

/// The collected items are worth nothing less than zero and at most 200 each.
pub proof fn lemma_collected_value_bounds(items: Seq<Item>)
    ensures
        0 <= collected_value(items) <= 200 * items.len(),
    decreases items.len(),
{
    if items.len() > 0 {
        lemma_collected_value_bounds(items.drop_last());
    }
}

/// Where no item is collected, the collected items are worth nothing.
pub proof fn lemma_nothing_collected(items: Seq<Item>)
    requires
        forall|i: int| 0 <= i < items.len() ==> !(#[trigger] items[i]).collected,
    ensures
        collected_value(items) == 0,
    decreases items.len(),
{
    if items.len() > 0 {
        lemma_nothing_collected(items.drop_last());
    }
}

/// Collecting one more item adds its value to what the collected items are
/// worth.
pub proof fn lemma_collect_adds_value(items: Seq<Item>, i: int)
    requires
        0 <= i < items.len(),
        !items[i].collected,
    ensures
        collected_value(items.update(i, items[i].taken())) == collected_value(items)
            + items[i].item_type.spec_value(),
    decreases items.len(),
{
    let after = items.update(i, items[i].taken());
    if i == items.len() - 1 {
        assert(after.drop_last() =~= items.drop_last());
    } else {
        lemma_collect_adds_value(items.drop_last(), i);
        assert(after.drop_last() =~= items.drop_last().update(i, items[i].taken()));
    }
}

/// A tick keeps a round well formed. In particular the hook's length stays
/// between zero and the configured reach, a hook at rest carries nothing, and
/// the score together with the value on the hook equals what the collected
/// items are worth.
pub proof fn lemma_update_preserves_wf(s: GameView, now: u64)
    requires
        s.wf(),
    ensures
        s.update(now).wf(),
        0 <= s.update(now).hook.length <= s.config.hook_length,
        s.update(now).hook.state is Idle ==> s.update(now).hook.attached_item is None,
        s.update(now).score + s.update(now).pending() == collected_value(s.update(now).items),
{
    if !s.game_over && elapsed(s.start_time, now) < s.config.round_ms {
        let hook = s.hook.updated(s.config);
        match hook.catch_at(s.miner.position, s.items, s.config) {
            Some(i) => {
                lemma_collect_adds_value(s.items, i);
            },
            None => {},
        }
    }
}

/// A key keeps a round well formed.
pub proof fn lemma_key_down_preserves_wf(s: GameView, key: Key, mouse: Point)
    requires
        s.wf(),
    ensures
        s.key_down(key, mouse).wf(),
{
    lemma_towards_wf(s.miner.position, mouse);
}

/// A tick changes the score only by crediting an item, and does so in the
/// tick in which the hook comes to rest with the item on it, and in no other:
/// the score rises exactly when the hook goes from retracting with an item to
/// rest, and then by the value of that item.
pub proof fn lemma_score_only_on_release(s: GameView, now: u64)
    requires
        s.wf(),
    ensures
        s.update(now).score >= s.score,
        s.update(now).score != s.score <==> s.hook.state is Retracting && s.hook.attached_item
            is Some && s.update(now).hook.state is Idle,
        s.update(now).score != s.score ==> s.update(now).score == s.score + s.pending()
            && s.update(now).hook.attached_item is None,
{
}

/// A tick leaves every item where and what it is, and never turns a collected
/// item back into one that can be caught.
pub proof fn lemma_items_only_get_collected(s: GameView, now: u64, i: int)
    requires
        0 <= i < s.items.len(),
    ensures
        s.update(now).items.len() == s.items.len(),
        s.update(now).items[i].item_type == s.items[i].item_type,
        s.update(now).items[i].position == s.items[i].position,
        s.items[i].collected ==> s.update(now).items[i].collected,
{
}

/// Whatever is played, a round stays well formed and keeps its configuration
/// and its start time. So at every moment the hook's length lies between zero
/// and the configured reach, a hook at rest carries nothing, and every
/// collected item has been credited exactly once or is still on the hook.
pub proof fn lemma_play_preserves_wf(s: GameView, inputs: Seq<Input>)
    requires
        s.wf(),
    ensures
        s.play(inputs).wf(),
        s.play(inputs).config == s.config,
        s.play(inputs).start_time == s.start_time,
        0 <= s.play(inputs).hook.length <= s.config.hook_length,
        s.play(inputs).hook.attached_item is Some ==> !(s.play(inputs).hook.state is Idle),
        s.play(inputs).score + s.play(inputs).pending() == collected_value(s.play(inputs).items),
    decreases inputs.len(),
{
    if inputs.len() > 0 {
        let before = s.play(inputs.drop_last());
        lemma_play_preserves_wf(s, inputs.drop_last());
        match inputs.last() {
            Input::Tick { now } => {
                lemma_update_preserves_wf(before, now);
            },
            Input::Key { key, mouse } => {
                lemma_key_down_preserves_wf(before, key, mouse);
            },
        }
    }
}

/// The score never falls.
pub proof fn lemma_score_never_falls(s: GameView, inputs: Seq<Input>)
    ensures
        s.play(inputs).score >= s.score,
    decreases inputs.len(),
{
    if inputs.len() > 0 {
        lemma_score_never_falls(s, inputs.drop_last());
    }
}

/// Once a round is over, nothing changes it any more.
pub proof fn lemma_over_is_final(s: GameView, inputs: Seq<Input>)
    requires
        s.game_over,
    ensures
        s.play(inputs) == s,
    decreases inputs.len(),
{
    if inputs.len() > 0 {
        lemma_over_is_final(s, inputs.drop_last());
    }
}

/// A round goes on as long as no tick finds its time up.
pub proof fn lemma_not_over_before_time(s: GameView, inputs: Seq<Input>)
    requires
        !s.game_over,
        forall|i: int| 0 <= i < inputs.len() ==> !s.expires_at(#[trigger] inputs[i]),
    ensures
        !s.play(inputs).game_over,
        s.play(inputs).config == s.config,
        s.play(inputs).start_time == s.start_time,
    decreases inputs.len(),
{
    if inputs.len() > 0 {
        lemma_not_over_before_time(s, inputs.drop_last());
    }
}

/// A round ends exactly once: at the first tick that finds its time up. That
/// tick changes nothing but the flag, and whatever is played after it changes
/// nothing at all.
pub proof fn lemma_round_ends_once(s: GameView, inputs: Seq<Input>, k: int)
    requires
        !s.game_over,
        0 <= k < inputs.len(),
        s.expires_at(inputs[k]),
        forall|i: int| 0 <= i < k ==> !s.expires_at(#[trigger] inputs[i]),
    ensures
        !s.play(inputs.take(k)).game_over,
        s.play(inputs) == (GameView { game_over: true, ..s.play(inputs.take(k)) }),
    decreases inputs.len(),
{
    lemma_not_over_before_time(s, inputs.take(k));
    if inputs.len() == k + 1 {
        assert(inputs.drop_last() =~= inputs.take(k));
    } else {
        let shorter = inputs.drop_last();
        assert(shorter.take(k) =~= inputs.take(k));
        lemma_round_ends_once(s, shorter, k);
    }
}

} // verus!
