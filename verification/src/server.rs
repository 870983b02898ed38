use vstd::prelude::*;
use vstd::string::StringExecFns;
use crate::interfaces::{
    Block, CacheLogEvent, Channels, CurrentBuyRate, CurrentGood, CurrentSellRate, Delay,
    IterCacheLogEvent, IterCacheTraderInfo, LogEvent, MsgMultiplexed, Time, TraderInfo,
};
use crate::market::{GoodLabel, labels_by_name, sort_labels_by_name};
use crate::text::{parse_u32, same_text, spec_parse_u32};

verus! {

/// How many messages each broadcast channel of the server holds.
pub const CHANNEL_CAPACITY: usize = 16536;

/// The slot of a market among the three markets of the simulation.
pub open spec fn spec_market_index(market: Seq<char>) -> Option<usize> {
    if market == "BFB"@ {
        Some(0)
    } else if market == "RCNZ"@ {
        Some(1)
    } else if market == "ZSE"@ {
        Some(2)
    } else {
        None
    }
}

/// The slot of a market, `None` for a name that is no market of the simulation.
pub fn market_index(market: &str) -> (index: Option<usize>)
    ensures
        index == spec_market_index(market@),
{
    if same_text(market, "BFB") {
        Some(0)
    } else if same_text(market, "RCNZ") {
        Some(1)
    } else if same_text(market, "ZSE") {
        Some(2)
    } else {
        None
    }
}

/// The channel slot that a stream of market information subscribes to, and
/// whether the stream runs: a stream for an unknown market subscribes to the
/// first slot and ends at once.
pub fn market_stream(market: &str) -> (stream: (usize, bool))
    ensures
        stream.0 < 3,
        stream.1 == spec_market_index(market@) is Some,
        stream.1 ==> stream.0 == spec_market_index(market@).unwrap(),
        !stream.1 ==> stream.0 == 0,
{
    match market_index(market) {
        Some(index) => (index, true),
        None => (0, false),
    }
}

/// The information about one market that a post of its goods produces, for
/// the market's three channels, in the order in which it is sent.
pub struct MarketUpdate<N> {
    pub index: usize,
    pub goods: Vec<CurrentGood<N>>,
    pub buy_rates: Vec<CurrentBuyRate<N>>,
    pub sell_rates: Vec<CurrentSellRate<N>>,
}

/// The quantities of the labels, of day `day`.
pub open spec fn current_goods<N>(s: Seq<GoodLabel<N>>, day: u32) -> Seq<CurrentGood<N>> {
    s.map_values(|l: GoodLabel<N>| CurrentGood { time: day, value: l.quantity, kind: l.good_kind })
}

/// The buy rates of the labels, of day `day`.
pub open spec fn current_buy_rates<N>(s: Seq<GoodLabel<N>>, day: u32) -> Seq<CurrentBuyRate<N>> {
    s.map_values(
        |l: GoodLabel<N>| CurrentBuyRate { time: day, value: l.exchange_rate_buy, kind: l.good_kind },
    )
}

/// The sell rates of the labels, of day `day`.
pub open spec fn current_sell_rates<N>(s: Seq<GoodLabel<N>>, day: u32) -> Seq<
    CurrentSellRate<N>,
> {
    s.map_values(
        |l: GoodLabel<N>|
            CurrentSellRate { time: day, value: l.exchange_rate_sell, kind: l.good_kind },
    )
}

/// Turns the goods that a market reported into the quantities, buy rates and
/// sell rates of the current day, listed by the names of the goods; nothing
/// for a name that is no market of the simulation.
pub fn post_current_good_labels<N: Copy>(
    goods: &Vec<GoodLabel<N>>,
    market: &str,
    time: &Time,
) -> (update: Option<MarketUpdate<N>>)
    ensures
        update is Some <==> spec_market_index(market@) is Some,
        update matches Some(u) ==> {
            &&& u.index == spec_market_index(market@).unwrap()
            &&& u.goods@ == current_goods(labels_by_name(goods@), time.0)
            &&& u.buy_rates@ == current_buy_rates(labels_by_name(goods@), time.0)
            &&& u.sell_rates@ == current_sell_rates(labels_by_name(goods@), time.0)
            &&& u.goods@.len() == labels_by_name(goods@).len()
            &&& u.buy_rates@.len() == labels_by_name(goods@).len()
            &&& u.sell_rates@.len() == labels_by_name(goods@).len()
            &&& forall|i: int|
                0 <= i < labels_by_name(goods@).len() ==> {
                    let l = #[trigger] labels_by_name(goods@)[i];
                    &&& u.goods@[i] == (CurrentGood { time: time.0, value: l.quantity, kind: l.good_kind })
                    &&& u.buy_rates@[i] == (CurrentBuyRate {
                        time: time.0,
                        value: l.exchange_rate_buy,
                        kind: l.good_kind,
                    })
                    &&& u.sell_rates@[i] == (CurrentSellRate {
                        time: time.0,
                        value: l.exchange_rate_sell,
                        kind: l.good_kind,
                    })
                }
        },
{
    let index: usize = match market_index(market) {
        Some(i) => i,
        None => {
            return None;
        },
    };
    let sorted: Vec<GoodLabel<N>> = sort_labels_by_name(goods);
    let day: u32 = time.get();
    let n: usize = sorted.len();
    let mut current: Vec<CurrentGood<N>> = Vec::new();
    let mut buy: Vec<CurrentBuyRate<N>> = Vec::new();
    let mut sell: Vec<CurrentSellRate<N>> = Vec::new();
    for i in 0..n
        invariant
            n == sorted@.len(),
            day == time.0,
            current@ == current_goods(sorted@.take(i as int), day),
            buy@ == current_buy_rates(sorted@.take(i as int), day),
            sell@ == current_sell_rates(sorted@.take(i as int), day),
    {
        let label: GoodLabel<N> = sorted[i];
        let kind = label.good_kind;
        current.push(CurrentGood { time: day, value: label.quantity, kind });
        buy.push(CurrentBuyRate { time: day, value: label.exchange_rate_buy, kind });
        sell.push(CurrentSellRate { time: day, value: label.exchange_rate_sell, kind });
        let ghost prefix = sorted@.take(i as int);
        assert(sorted@.take(i + 1) =~= prefix.push(label));
        assert(current_goods(prefix.push(label), day) =~= current_goods(prefix, day).push(
            CurrentGood { time: day, value: label.quantity, kind },
        ));
        assert(current_buy_rates(prefix.push(label), day) =~= current_buy_rates(prefix, day).push(
            CurrentBuyRate { time: day, value: label.exchange_rate_buy, kind },
        ));
        assert(current_sell_rates(prefix.push(label), day) =~= current_sell_rates(
            prefix,
            day,
        ).push(CurrentSellRate { time: day, value: label.exchange_rate_sell, kind }));
    }
    assert(sorted@.take(n as int) =~= sorted@);
    proof {
        crate::laws::market_update_follows_labels(sorted@, day);
    }
    Some(MarketUpdate { index, goods: current, buy_rates: buy, sell_rates: sell })
}

/// The event as it is sent and cached on day `day`.
pub open spec fn stamped_event<N>(event: LogEvent<N>, day: int) -> LogEvent<N> {
    LogEvent {
        time: day as u32,
        event: event.event,
        market: event.market,
        result: event.result,
        error: event.error,
    }
}

/// The day and the cached events after one event is posted: a successful
/// action ends the day, so the counter moves on by one, and a failed one
/// keeps it; the event, stamped with the resulting day, is cached.
pub open spec fn post_event_step<N>(day: int, cached: Seq<LogEvent<N>>, event: LogEvent<N>) -> (
    int,
    Seq<LogEvent<N>>,
) {
    let after = if event.result {
        day + 1
    } else {
        day
    };
    (after, cached.push(stamped_event(event, after)))
}

/// Stamps a logged event with its day, advancing the day when the action
/// succeeded, and keeps it for later clients; returns the stamped event, the
/// one to send.
pub fn post_new_event<N: Copy>(
    event: LogEvent<N>,
    time: &mut Time,
    cache: &mut CacheLogEvent<N>,
) -> (sent: LogEvent<N>)
    requires
        event.result ==> old(time).0 < u32::MAX,
    ensures
        (final(time).0 as int, final(cache)@) == post_event_step(
            old(time).0 as int,
            old(cache)@,
            event,
        ),
        sent == stamped_event(event, final(time).0 as int),
        sent.time == final(time).0,
        sent.event == event.event,
        sent.market == event.market,
        sent.result == event.result,
        sent.error == event.error,
        final(cache)@ == old(cache)@.push(sent),
{
    let mut content: LogEvent<N> = event;
    if content.result {
        content.time = time.increment_one();
    } else {
        content.time = time.get();
    }
    let sent: LogEvent<N> = content.clone();
    cache.add(content);
    sent
}

/// What a replaying stream does next.
pub enum ReplayPoll<T> {
    /// Streams are paused: send nothing now.
    Paused,
    /// Send this recorded item.
    Replay(T),
    /// All recorded items went out: wait for new ones.
    Listen,
}

/// One step of a replay: paused streams hand out nothing; otherwise the
/// oldest item not handed out yet goes, and when none is left the stream
/// listens for new items.
pub open spec fn replay_step<T>(remaining: Seq<T>, paused: bool) -> (Seq<T>, ReplayPoll<T>) {
    if paused {
        (remaining, ReplayPoll::Paused)
    } else if remaining.len() > 0 {
        (remaining.drop_first(), ReplayPoll::Replay(remaining[0]))
    } else {
        (remaining, ReplayPoll::Listen)
    }
}

/// The next step of a stream of logged events.
pub fn poll_log_replay<N>(replay: &mut IterCacheLogEvent<N>, stop: &Block) -> (step: ReplayPoll<
    LogEvent<N>,
>)
    ensures
        (final(replay)@, step) == replay_step(old(replay)@, stop.0),
{
    if stop.0 {
        return ReplayPoll::Paused;
    }
    match replay.next() {
        Some(event) => ReplayPoll::Replay(event),
        None => ReplayPoll::Listen,
    }
}

/// The next step of a stream of the trader's holdings.
pub fn poll_trader_replay<N>(replay: &mut IterCacheTraderInfo<N>, stop: &Block) -> (step:
    ReplayPoll<TraderInfo<N>>)
    ensures
        (final(replay)@, step) == replay_step(old(replay)@, stop.0),
{
    if stop.0 {
        return ReplayPoll::Paused;
    }
    match replay.next() {
        Some(info) => ReplayPoll::Replay(info),
        None => ReplayPoll::Listen,
    }
}

/// What a stream got while it listened for a new item.
pub enum Received<T> {
    /// A new item.
    Message(T),
    /// The channel is closed.
    Closed,
    /// The stream fell behind and this many items were lost.
    Lagged(u64),
    /// The server shuts down.
    Shutdown,
}

/// What a stream does with what it got.
pub enum StreamAction<T> {
    /// Send this item to the client.
    Emit(T),
    /// Send nothing and go on.
    Skip,
    /// End the stream.
    Stop,
}

/// A new item is sent on; after lost items the stream goes on; a closed
/// channel or a shutdown ends the stream.
pub fn on_received<T>(received: Received<T>) -> (action: StreamAction<T>)
    ensures
        match received {
            Received::Message(m) => action == StreamAction::Emit(m),
            Received::Lagged(_) => action is Skip,
            Received::Closed => action is Stop,
            Received::Shutdown => action is Stop,
        },
{
    match received {
        Received::Message(m) => StreamAction::Emit(m),
        Received::Lagged(_) => StreamAction::Skip,
        Received::Closed => StreamAction::Stop,
        Received::Shutdown => StreamAction::Stop,
    }
}

/// What one of the sources of a combined market stream produced.
pub enum SourceEvent {
    /// A message with this text.
    Message(String),
    /// Something that is not a message: the opening of the source, or an error.
    Other,
    /// The source has ended.
    Ended,
    /// The server shuts down.
    Shutdown,
}

/// A message of a source goes on tagged with the source's channel; anything
/// else that a source produces is passed over; the end of a source or a
/// shutdown ends the combined stream.
pub fn multiplex(channel: Channels, event: SourceEvent) -> (action: StreamAction<MsgMultiplexed>)
    ensures
        match event {
            SourceEvent::Message(data) => action == StreamAction::Emit(
                MsgMultiplexed { channel, log: data },
            ),
            SourceEvent::Other => action is Skip,
            SourceEvent::Ended => action is Stop,
            SourceEvent::Shutdown => action is Stop,
        },
{
    match event {
        SourceEvent::Message(data) => StreamAction::Emit(MsgMultiplexed { channel, log: data }),
        SourceEvent::Other => StreamAction::Skip,
        SourceEvent::Ended => StreamAction::Stop,
        SourceEvent::Shutdown => StreamAction::Stop,
    }
}

/// Where the stream of a channel of a market is served.
pub open spec fn channel_address(channel: Channels) -> Seq<char> {
    match channel {
        Channels::CurrentGoods => "http://localhost:8000/currentGoods/"@,
        Channels::CurrentBuyRate => "http://localhost:8000/currentBuyRate/"@,
        Channels::CurrentSellRate => "http://localhost:8000/currentSellRate/"@,
    }
}

/// The address of the stream of a channel of a market.
pub fn source_url(channel: Channels, market: &str) -> (url: String)
    ensures
        url@ == channel_address(channel) + market@,
{
    let base: String = match channel {
        Channels::CurrentGoods => "http://localhost:8000/currentGoods/".to_owned(),
        Channels::CurrentBuyRate => "http://localhost:8000/currentBuyRate/".to_owned(),
        Channels::CurrentSellRate => "http://localhost:8000/currentSellRate/".to_owned(),
    };
    base.concat(market)
}

/// Pauses the streams.
pub fn block(stop: &mut Block)
    ensures
        final(stop).0,
{
    stop.0 = true;
}

/// Resumes the streams.
pub fn unblock(stop: &mut Block)
    ensures
        !final(stop).0,
{
    stop.0 = false;
}

/// Sets the delay from its decimal text.
pub fn set_delay(data: &str, state_delay: &mut Delay)
    requires
        spec_parse_u32(data@) is Some,
    ensures
        final(state_delay).delay == spec_parse_u32(data@).unwrap(),
{
    match parse_u32(data) {
        Some(content) => state_delay.set(content),
        None => {},
    }
}

/// The current delay.
pub fn get_delay(state_delay: &Delay) -> (delay: u32)
    ensures
        delay == state_delay.delay,
{
    state_delay.get()
}

} // verus!
