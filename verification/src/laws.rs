use vstd::prelude::*;
use crate::interfaces::{LogEvent, TraderGraphSeries, TraderInfo, next_day, replay_next};
use crate::server::{ReplayPoll, post_event_step, replay_step, spec_market_index, stamped_event};
use crate::trader::{infos_by_name, stamped};
use crate::interfaces::{CurrentBuyRate, CurrentGood, CurrentSellRate};
use crate::market::GoodLabel;
use crate::server::{current_buy_rates, current_goods, current_sell_rates};
use crate::text::{digits_value, is_decimal_digit, spec_parse_u32};

verus! {

/// What is left of a replay after `k` steps while streams run.
pub open spec fn remaining_after<T>(s: Seq<T>, k: nat) -> Seq<T>
    decreases k,
{
    if k == 0 {
        s
    } else {
        replay_step(remaining_after(s, (k - 1) as nat), false).0
    }
}

/// A client that connects late is first handed every recorded item, in the
/// order in which the items were recorded, one per step, and only then
/// listens for new items.
pub proof fn replay_hands_out_records_in_order<T>(s: Seq<T>, k: nat)
    requires
        k <= s.len(),
    ensures
        remaining_after(s, k) == s.skip(k as int),
        k < s.len() ==> replay_step(remaining_after(s, k), false).1 == ReplayPoll::Replay(s[k as int]),
        k == s.len() ==> replay_step(remaining_after(s, k), false).1 is Listen,
    decreases k,
{
    if k > 0 {
        replay_hands_out_records_in_order(s, (k - 1) as nat);
        assert(s.skip(k - 1).drop_first() =~= s.skip(k as int));
    }
    assert(s.skip(0) =~= s);
}

/// While streams are paused a replay hands out nothing and loses nothing.
pub proof fn paused_replay_keeps_records<T>(s: Seq<T>)
    ensures
        replay_step(s, true) == (s, ReplayPoll::<T>::Paused),
{
}

/// The number of successful actions among `events`.
pub open spec fn successes<N>(events: Seq<LogEvent<N>>) -> nat
    decreases events.len(),
{
    if events.len() == 0 {
        0
    } else if events.last().result {
        successes(events.drop_last()) + 1
    } else {
        successes(events.drop_last())
    }
}

/// The day and the cached events after `events` are posted one after the
/// other, starting on day `day` with `cached` in the cache: each post is one
/// `post_event_step`, the step that `post_new_event` takes.
pub open spec fn post_event_run<N>(day: int, cached: Seq<LogEvent<N>>, events: Seq<LogEvent<N>>) -> (
    int,
    Seq<LogEvent<N>>,
)
    decreases events.len(),
{
    if events.len() == 0 {
        (day, cached)
    } else {
        let before = post_event_run(day, cached, events.drop_last());
        post_event_step(before.0, before.1, events.last())
    }
}

/// More actions never have fewer successes.
pub proof fn successes_grow<N>(events: Seq<LogEvent<N>>, a: int, b: int)
    requires
        0 <= a <= b <= events.len(),
    ensures
        successes(events.take(a)) <= successes(events.take(b)),
    decreases b - a,
{
    if a < b {
        successes_grow(events, a, b - 1);
        assert(events.take(b).drop_last() =~= events.take(b - 1));
    }
}

/// After a run of posted events the day counter has moved on by exactly the
/// number of successful actions; the cache holds what it held, then each
/// event in the order posted, every one stamped with the number of successes
/// up to and including it (added to the starting day), so the cached days
/// never go down.
pub proof fn posted_events_count_successes<N>(
    day: int,
    cached: Seq<LogEvent<N>>,
    events: Seq<LogEvent<N>>,
)
    requires
        0 <= day,
        day + successes(events) <= u32::MAX,
    ensures
        post_event_run(day, cached, events).0 == day + successes(events),
        post_event_run(day, cached, events).1.len() == cached.len() + events.len(),
        post_event_run(day, cached, events).1.take(cached.len() as int) == cached,
        forall|i: int|
            0 <= i < events.len() ==> {
                let e = #[trigger] post_event_run(day, cached, events).1[cached.len() + i];
                &&& e.time == day + successes(events.take(i + 1))
                &&& e.event == events[i].event
                &&& e.market == events[i].market
                &&& e.result == events[i].result
                &&& e.error == events[i].error
            },
        forall|i: int, j: int|
            0 <= i <= j < events.len() ==> (#[trigger] post_event_run(day, cached, events).1[cached.len()
                + i]).time <= (#[trigger] post_event_run(day, cached, events).1[cached.len()
                + j]).time,
    decreases events.len(),
{
    let run = post_event_run(day, cached, events);
    if events.len() > 0 {
        let rest = events.drop_last();
        posted_events_count_successes(day, cached, rest);
        let before = post_event_run(day, cached, rest);
        assert(events.take(events.len() as int) =~= events);
        assert(run.1 =~= before.1.push(stamped_event(events.last(), run.0)));
        assert(run.1.take(cached.len() as int) =~= before.1.take(cached.len() as int));
        assert forall|i: int| 0 <= i < events.len() implies {
            let e = #[trigger] run.1[cached.len() + i];
            &&& e.time == day + successes(events.take(i + 1))
            &&& e.event == events[i].event
            &&& e.market == events[i].market
            &&& e.result == events[i].result
            &&& e.error == events[i].error
        } by {
            if i < rest.len() {
                assert(run.1[cached.len() + i] == before.1[cached.len() + i]);
                assert(events[i] == rest[i]);
                assert(events.take(i + 1) =~= rest.take(i + 1));
            }
        }
        assert forall|i: int, j: int| 0 <= i <= j < events.len() implies (#[trigger] run.1[cached.len()
            + i]).time <= (#[trigger] run.1[cached.len() + j]).time by {
            successes_grow(events, i + 1, j + 1);
        }
    }
}

/// What is left of a replay of `s` after `k` calls of `next`.
pub open spec fn replay_left_after<T>(s: Seq<T>, k: nat) -> Seq<T>
    decreases k,
{
    if k == 0 {
        s
    } else {
        replay_next(replay_left_after(s, (k - 1) as nat)).0
    }
}

/// A replay hands out its snapshot through successive calls of `next`: the
/// call after `k` calls hands out the `k`-th item while there is one, and
/// `None` from then on. Items added to the cache after the replay was made
/// are not in the snapshot.
pub proof fn replay_hands_out_snapshot<T>(s: Seq<T>, k: nat)
    ensures
        replay_left_after(s, k) == (if k <= s.len() {
            s.skip(k as int)
        } else {
            Seq::<T>::empty()
        }),
        replay_next(replay_left_after(s, k)).1 == (if k < s.len() {
            Some(s[k as int])
        } else {
            None
        }),
    decreases k,
{
    if k > 0 {
        replay_hands_out_snapshot(s, (k - 1) as nat);
        if k <= s.len() {
            assert(s.skip(k - 1).drop_first() =~= s.skip(k as int));
        }
    }
    assert(s.skip(0) =~= s);
    if k == s.len() {
        assert(s.skip(k as int) =~= Seq::<T>::empty());
    }
}

/// The replay of a `CacheLogEvent`, made by `iter`, hands out every cached
/// event in order through `next`, and then `None`.
pub proof fn log_replay_hands_out_snapshot<N>(s: Seq<LogEvent<N>>, k: nat)
    ensures
        replay_next(replay_left_after(s, k)).1 == (if k < s.len() {
            Some(s[k as int])
        } else {
            None::<LogEvent<N>>
        }),
{
    replay_hands_out_snapshot(s, k);
}

/// The replay of a `CacheTraderInfo`, made by `iter`, hands out every cached
/// record in order through `next`, and then `None`.
pub proof fn trader_replay_hands_out_snapshot<N>(s: Seq<TraderInfo<N>>, k: nat)
    ensures
        replay_next(replay_left_after(s, k)).1 == (if k < s.len() {
            Some(s[k as int])
        } else {
            None::<TraderInfo<N>>
        }),
{
    replay_hands_out_snapshot(s, k);
}

/// The day after `k` calls of `increment_one` from day `day`.
pub open spec fn day_after_increments(day: int, k: nat) -> int
    decreases k,
{
    if k == 0 {
        day
    } else {
        next_day(day_after_increments(day, (k - 1) as nat))
    }
}

/// `k` calls of `increment_one` move the day on by `k`; `get` then reads
/// that day, which is what the last call returned.
pub proof fn increments_count_days(day: int, k: nat)
    ensures
        day_after_increments(day, k) == day + k,
    decreases k,
{
    if k > 0 {
        increments_count_days(day, (k - 1) as nat);
    }
}

/// The three markets have three different slots, each below three, and any
/// other name has none.
pub proof fn market_slots_are_distinct(a: Seq<char>, b: Seq<char>)
    ensures
        spec_market_index(a) matches Some(i) ==> i < 3,
        spec_market_index(a) is Some && spec_market_index(b) is Some && a != b
            ==> spec_market_index(a) != spec_market_index(b),
        spec_market_index(a) is Some <==> (a == "BFB"@ || a == "RCNZ"@ || a == "ZSE"@),
{
}

/// All the records of one post of the trader's holdings carry the day of the
/// post, and the last of them is the total.
pub proof fn trader_post_is_of_one_day<N>(goods: Seq<TraderInfo<N>>, total: N, day: u32)
    ensures
        ({
            let sent = stamped(infos_by_name(goods), day).push(
                TraderInfo { time: day, kind: TraderGraphSeries::TOT, quantity: total },
            );
            &&& forall|i: int| 0 <= i < sent.len() ==> #[trigger] sent[i].time == day
            &&& sent.last().kind == TraderGraphSeries::TOT
            &&& sent.last().quantity == total
        }),
{
}

/// A market's update has one quantity, one buy rate and one sell rate per
/// label, in the order of the labels: each carries the day, the good of its
/// label, and that label's quantity, buy rate or sell rate respectively.
pub proof fn market_update_follows_labels<N>(s: Seq<GoodLabel<N>>, day: u32)
    ensures
        current_goods(s, day).len() == s.len(),
        current_buy_rates(s, day).len() == s.len(),
        current_sell_rates(s, day).len() == s.len(),
        forall|i: int|
            0 <= i < s.len() ==> {
                &&& #[trigger] current_goods(s, day)[i] == (CurrentGood {
                    time: day,
                    value: s[i].quantity,
                    kind: s[i].good_kind,
                })
                &&& current_buy_rates(s, day)[i] == (CurrentBuyRate {
                    time: day,
                    value: s[i].exchange_rate_buy,
                    kind: s[i].good_kind,
                })
                &&& current_sell_rates(s, day)[i] == (CurrentSellRate {
                    time: day,
                    value: s[i].exchange_rate_sell,
                    kind: s[i].good_kind,
                })
            },
{
}

/// Stamping the trader's records changes only their day: each keeps its
/// series and its quantity, and none is added or lost.
pub proof fn stamping_keeps_series_and_quantity<N>(s: Seq<TraderInfo<N>>, day: u32)
    ensures
        stamped(s, day).len() == s.len(),
        forall|i: int|
            0 <= i < s.len() ==> #[trigger] stamped(s, day)[i] == (TraderInfo {
                time: day,
                kind: s[i].kind,
                quantity: s[i].quantity,
            }),
{
}

/// A single digit reads as its own value.
pub proof fn parse_single_digit(c: char)
    requires
        is_decimal_digit(c),
    ensures
        spec_parse_u32(seq![c]) == Some(((c as u32) - 48) as u32),
{
    assert(seq![c].drop_last() =~= Seq::<char>::empty());
    assert(seq![c][0] == c);
    reveal_with_fuel(digits_value, 2);
}

/// Writing one more digit after a numeral multiplies its value by ten and
/// adds the digit, as long as the result fits in a `u32`.
pub proof fn parse_appends_digit(s: Seq<char>, c: char)
    requires
        s.len() > 0,
        forall|i: int| 0 <= i < s.len() ==> is_decimal_digit(#[trigger] s[i]),
        is_decimal_digit(c),
        digits_value(s) * 10 + ((c as u32) - 48) <= u32::MAX,
    ensures
        spec_parse_u32(s) == Some(digits_value(s) as u32),
        spec_parse_u32(s.push(c)) == Some((digits_value(s) * 10 + ((c as u32) - 48)) as u32),
{
    assert(is_decimal_digit(s[0]));
    assert(s.push(c)[0] == s[0]);
    assert(s.push(c).drop_last() =~= s);
    assert forall|i: int| 0 <= i < s.push(c).len() implies is_decimal_digit(#[trigger] s.push(c)[i]) by {
        if i < s.len() {
            assert(s.push(c)[i] == s[i]);
        }
    }
}

/// One leading '+' is read over: a numeral reads the same with it, unless
/// it already starts with a '+'.
pub proof fn parse_reads_over_one_plus(s: Seq<char>)
    requires
        s.len() == 0 || s[0] != '+',
    ensures
        spec_parse_u32(seq!['+'] + s) == spec_parse_u32(s),
{
    assert((seq!['+'] + s).drop_first() =~= s);
}

/// A text with any other character than digits, except one leading '+', is
/// no numeral.
pub proof fn parse_refuses_other_characters(s: Seq<char>, i: int)
    requires
        0 <= i < s.len(),
        !is_decimal_digit(s[i]),
        i > 0 || s[i] != '+',
    ensures
        spec_parse_u32(s) is None,
{
    if s[0] == '+' {
        assert(s.drop_first()[i - 1] == s[i]);
    }
}

/// A numeral whose value exceeds `u32::MAX` is refused, and so is a text
/// with no digit.
pub proof fn parse_refuses_overflow_and_empty(s: Seq<char>)
    ensures
        (s.len() == 0 || s == seq!['+']) ==> spec_parse_u32(s) is None,
        (s.len() > 0 && s[0] != '+' && digits_value(s) > u32::MAX) ==> spec_parse_u32(s) is None,
{
    if s == seq!['+'] {
        assert(s.drop_first().len() == 0);
    }
}

} // verus!
