use vstd::prelude::*;
use crate::market::GoodKind;
use crate::text::{lex_lt, lemma_lex_irreflexive, lemma_lex_asymmetric};

verus! {

/// What the trader did.
#[derive(Clone, Copy, Debug, PartialEq, Eq, Structural)]
pub enum CustomEventKind {
    Bought,
    Sold,
    LockedBuy,
    LockedSell,
    Wait,
}

/// One action of the trader. `N` is the number type of quantities and prices.
#[derive(Clone, Copy, Debug)]
pub struct CustomEvent<N> {
    pub kind: CustomEventKind,
    pub good_kind: GoodKind,
    pub quantity: N,
    pub price: N,
}

/// An action of the trader as it is logged: the day on which it happened,
/// the market it was done with, whether it succeeded and, if not, the
/// market's error.
#[derive(Debug)]
pub struct LogEvent<N> {
    pub time: u32,
    pub event: CustomEvent<N>,
    pub market: String,
    pub result: bool,
    pub error: Option<String>,
}

impl<N: Copy> Clone for LogEvent<N> {
    fn clone(&self) -> (copy: Self)
        ensures
            copy == *self,
    {
        let error: Option<String> = match &self.error {
            Some(e) => Some(e.clone()),
            None => None,
        };
        LogEvent {
            time: self.time,
            event: self.event,
            market: self.market.clone(),
            result: self.result,
            error,
        }
    }
}

/// The quantity of a good that a market holds on a day.
#[derive(Clone, Copy, Debug)]
pub struct CurrentGood<N> {
    pub time: u32,
    pub value: N,
    pub kind: GoodKind,
}

/// The rate at which a market buys a good on a day.
#[derive(Clone, Copy, Debug)]
pub struct CurrentBuyRate<N> {
    pub time: u32,
    pub value: N,
    pub kind: GoodKind,
}

/// The rate at which a market sells a good on a day.
#[derive(Clone, Copy, Debug)]
pub struct CurrentSellRate<N> {
    pub time: u32,
    pub value: N,
    pub kind: GoodKind,
}

/// The three kinds of market information that are streamed.
#[derive(Clone, Copy, Debug, PartialEq, Eq, Structural)]
pub enum Channels {
    CurrentGoods,
    CurrentBuyRate,
    CurrentSellRate,
}

/// A message of one of the market streams, tagged with the stream it came from.
#[derive(Clone, Debug)]
pub struct MsgMultiplexed {
    pub channel: Channels,
    pub log: String,
}

/// The series of the trader's graph: one per currency and their total.
#[derive(Clone, Copy, Debug, PartialEq, Eq, Structural)]
pub enum TraderGraphSeries {
    EUR,
    USD,
    YEN,
    YUAN,
    TOT,
}

/// The name under which a series is displayed.
pub open spec fn series_name(s: TraderGraphSeries) -> Seq<char> {
    match s {
        TraderGraphSeries::EUR => "EUR"@,
        TraderGraphSeries::USD => "USD"@,
        TraderGraphSeries::YEN => "YEN"@,
        TraderGraphSeries::YUAN => "YUAN"@,
        TraderGraphSeries::TOT => "TOT"@,
    }
}

/// Position of a series when the series are listed by name.
pub open spec fn series_rank(s: TraderGraphSeries) -> int {
    match s {
        TraderGraphSeries::EUR => 0,
        TraderGraphSeries::TOT => 1,
        TraderGraphSeries::USD => 2,
        TraderGraphSeries::YEN => 3,
        TraderGraphSeries::YUAN => 4,
    }
}

impl TraderGraphSeries {
    /// The displayed name of the series.
    pub fn to_string(&self) -> (name: String)
        ensures
            name@ == series_name(*self),
    {
        match self {
            TraderGraphSeries::EUR => "EUR".to_owned(),
            TraderGraphSeries::USD => "USD".to_owned(),
            TraderGraphSeries::YEN => "YEN".to_owned(),
            TraderGraphSeries::YUAN => "YUAN".to_owned(),
            TraderGraphSeries::TOT => "TOT".to_owned(),
        }
    }
}

/// The rank order of series is the order of their names.
pub proof fn series_rank_is_name_order(a: TraderGraphSeries, b: TraderGraphSeries)
    ensures
        lex_lt(series_name(a), series_name(b)) <==> series_rank(a) < series_rank(b),
{
    reveal_strlit("EUR");
    reveal_strlit("USD");
    reveal_strlit("YEN");
    reveal_strlit("YUAN");
    reveal_strlit("TOT");
    let eur = seq!['E', 'U', 'R'];
    let tot = seq!['T', 'O', 'T'];
    let usd = seq!['U', 'S', 'D'];
    let yen = seq!['Y', 'E', 'N'];
    let yuan = seq!['Y', 'U', 'A', 'N'];
    assert("EUR"@ =~= eur);
    assert("TOT"@ =~= tot);
    assert("USD"@ =~= usd);
    assert("YEN"@ =~= yen);
    assert("YUAN"@ =~= yuan);
    assert(yen.drop_first() =~= seq!['E', 'N']);
    assert(yuan.drop_first() =~= seq!['U', 'A', 'N']);
    reveal_with_fuel(lex_lt, 3);
    assert(lex_lt(eur, tot) && lex_lt(eur, usd) && lex_lt(eur, yen) && lex_lt(eur, yuan));
    assert(lex_lt(tot, usd) && lex_lt(tot, yen) && lex_lt(tot, yuan));
    assert(lex_lt(usd, yen) && lex_lt(usd, yuan) && lex_lt(yen, yuan));
    lemma_lex_irreflexive(series_name(a));
    lemma_lex_asymmetric(series_name(a), series_name(b));
}

/// The trader's holding in one series on a day. `N` is the number type of
/// quantities.
#[derive(Clone, Copy, Debug)]
pub struct TraderInfo<N> {
    pub time: u32,
    pub kind: TraderGraphSeries,
    pub quantity: N,
}

/// The day after `day`.
pub open spec fn next_day(day: int) -> int {
    day + 1
}

/// One step of a replay: the oldest item not handed out yet goes, and
/// nothing goes once all have gone.
pub open spec fn replay_next<T>(remaining: Seq<T>) -> (Seq<T>, Option<T>) {
    if remaining.len() > 0 {
        (remaining.drop_first(), Some(remaining[0]))
    } else {
        (remaining, None)
    }
}

/// Counter of the days that have passed in the simulation.
pub struct Time(pub u32);

impl Time {
    /// A counter that starts at day zero.
    pub fn new() -> (t: Time)
        ensures
            t.0 == 0,
    {
        Time(0)
    }

    fn increment(&mut self, quantity: u32) -> (day: u32)
        requires
            old(self).0 + quantity <= u32::MAX,
        ensures
            final(self).0 == old(self).0 + quantity,
            day == final(self).0,
    {
        self.0 = self.0 + quantity;
        self.0
    }

    /// Advances the counter by one day and returns the new day.
    pub fn increment_one(&mut self) -> (day: u32)
        requires
            old(self).0 < u32::MAX,
        ensures
            final(self).0 == next_day(old(self).0 as int),
            day == final(self).0,
    {
        self.increment(1)
    }

    /// The current day.
    pub fn get(&self) -> (day: u32)
        ensures
            day == self.0,
    {
        self.0
    }
}

/// Whether the streams to the clients are paused.
pub struct Block(pub bool);

impl Block {
    /// Streams start running.
    pub fn new() -> (b: Block)
        ensures
            !b.0,
    {
        Block(false)
    }
}

/// The number of milliseconds that the trader waits between two events.
pub struct Delay {
    pub delay: u32,
}

impl Delay {
    /// The delay that the server starts with: one second.
    pub fn new() -> (d: Delay)
        ensures
            d.delay == 1000,
    {
        Delay { delay: 1000 }
    }

    /// Sets the delay.
    pub fn set(&mut self, value: u32)
        ensures
            final(self).delay == value,
    {
        self.delay = value;
    }

    /// The current delay.
    pub fn get(&self) -> (value: u32)
        ensures
            value == self.delay,
    {
        self.delay
    }
}

/// The events logged so far, kept for the clients that connect later.
pub struct CacheLogEvent<N> {
    events: Vec<LogEvent<N>>,
}

impl<N> View for CacheLogEvent<N> {
    type V = Seq<LogEvent<N>>;

    closed spec fn view(&self) -> Seq<LogEvent<N>> {
        self.events@
    }
}

impl<N: Copy> CacheLogEvent<N> {
    /// An empty cache.
    pub fn new() -> (cache: Self)
        ensures
            cache@ == Seq::<LogEvent<N>>::empty(),
    {
        CacheLogEvent { events: Vec::new() }
    }

    /// Appends an event.
    pub fn add(&mut self, value: LogEvent<N>)
        ensures
            final(self)@ == old(self)@.push(value),
    {
        self.events.push(value);
    }

    /// A copy of the events, in the order in which they were added.
    pub fn clone_vec(&self) -> (copy: Vec<LogEvent<N>>)
        ensures
            copy@ == self@,
    {
        let n: usize = self.events.len();
        let mut copy: Vec<LogEvent<N>> = Vec::new();
        for i in 0..n
            invariant
                n == self.events@.len(),
                copy@ == self.events@.take(i as int),
        {
            copy.push(self.events[i].clone());
            assert(self.events@.take(i + 1) =~= self.events@.take(i as int).push(self.events@[i as int]));
        }
        assert(self.events@.take(n as int) =~= self.events@);
        copy
    }

    /// A replay of the events added so far.
    pub fn iter(&self) -> (replay: IterCacheLogEvent<N>)
        ensures
            replay@ == self@,
    {
        IterCacheLogEvent { cache: self.clone_vec() }
    }
}

/// The events that a replay has still to hand out, first one first.
pub struct IterCacheLogEvent<N> {
    cache: Vec<LogEvent<N>>,
}

impl<N> View for IterCacheLogEvent<N> {
    type V = Seq<LogEvent<N>>;

    closed spec fn view(&self) -> Seq<LogEvent<N>> {
        self.cache@
    }
}

impl<N> IterCacheLogEvent<N> {
    /// Hands out the oldest event not handed out yet.
    pub fn next(&mut self) -> (item: Option<LogEvent<N>>)
        ensures
            (final(self)@, item) == replay_next(old(self)@),
    {
        if self.cache.len() > 0 {
            let first: LogEvent<N> = self.cache.remove(0);
            assert(old(self)@.remove(0) =~= old(self)@.drop_first());
            Some(first)
        } else {
            None
        }
    }
}

/// The trader's holdings recorded so far, kept for the clients that connect
/// later.
pub struct CacheTraderInfo<N> {
    infos: Vec<TraderInfo<N>>,
}

impl<N> View for CacheTraderInfo<N> {
    type V = Seq<TraderInfo<N>>;

    closed spec fn view(&self) -> Seq<TraderInfo<N>> {
        self.infos@
    }
}

impl<N: Copy> CacheTraderInfo<N> {
    /// An empty cache.
    pub fn new() -> (cache: Self)
        ensures
            cache@ == Seq::<TraderInfo<N>>::empty(),
    {
        CacheTraderInfo { infos: Vec::new() }
    }

    /// Appends a record.
    pub fn add(&mut self, value: TraderInfo<N>)
        ensures
            final(self)@ == old(self)@.push(value),
    {
        self.infos.push(value);
    }

    /// A copy of the records, in the order in which they were added.
    pub fn clone_vec(&self) -> (copy: Vec<TraderInfo<N>>)
        ensures
            copy@ == self@,
    {
        let n: usize = self.infos.len();
        let mut copy: Vec<TraderInfo<N>> = Vec::new();
        for i in 0..n
            invariant
                n == self.infos@.len(),
                copy@ == self.infos@.take(i as int),
        {
            copy.push(self.infos[i]);
            assert(self.infos@.take(i + 1) =~= self.infos@.take(i as int).push(self.infos@[i as int]));
        }
        assert(self.infos@.take(n as int) =~= self.infos@);
        copy
    }

    /// A replay of the records added so far.
    pub fn iter(&self) -> (replay: IterCacheTraderInfo<N>)
        ensures
            replay@ == self@,
    {
        IterCacheTraderInfo { cache: self.clone_vec() }
    }
}

/// The records that a replay has still to hand out, first one first.
pub struct IterCacheTraderInfo<N> {
    cache: Vec<TraderInfo<N>>,
}

impl<N> View for IterCacheTraderInfo<N> {
    type V = Seq<TraderInfo<N>>;

    closed spec fn view(&self) -> Seq<TraderInfo<N>> {
        self.cache@
    }
}

impl<N> IterCacheTraderInfo<N> {
    /// Hands out the oldest record not handed out yet.
    pub fn next(&mut self) -> (item: Option<TraderInfo<N>>)
        ensures
            (final(self)@, item) == replay_next(old(self)@),
    {
        if self.cache.len() > 0 {
            let first: TraderInfo<N> = self.cache.remove(0);
            assert(old(self)@.remove(0) =~= old(self)@.drop_first());
            Some(first)
        } else {
            None
        }
    }
}

} // verus!
