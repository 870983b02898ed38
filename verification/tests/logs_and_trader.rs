use data_visualizer::interfaces::{
    Block, CacheLogEvent, CacheTraderInfo, CustomEvent, CustomEventKind, LogEvent, Time,
    TraderGraphSeries, TraderInfo,
};
use data_visualizer::market::GoodKind;
use data_visualizer::server::{
    on_received, poll_log_replay, poll_trader_replay, post_new_event, Received, ReplayPoll,
    StreamAction,
};
use data_visualizer::trader::{order_trader_goods, post_trader_goods, sort_infos_by_name};

fn event(result: bool, quantity: u32) -> LogEvent<u32> {
    LogEvent {
        time: 0,
        event: CustomEvent {
            kind: CustomEventKind::Bought,
            good_kind: GoodKind::USD,
            quantity,
            price: 3,
        },
        market: "BFB".to_string(),
        result,
        error: if result { None } else { Some("NonPositiveQuantity".to_string()) },
    }
}

fn info(kind: TraderGraphSeries, quantity: u32) -> TraderInfo<u32> {
    TraderInfo { time: 0, kind, quantity }
}

#[test]
fn successful_events_end_the_day() {
    let mut time = Time::new();
    let mut cache = CacheLogEvent::new();
    let sent = post_new_event(event(true, 1), &mut time, &mut cache);
    assert_eq!(sent.time, 1);
    assert_eq!(time.get(), 1);
    assert!(sent.result);
    assert_eq!(sent.market, "BFB");
    assert_eq!(sent.event.quantity, 1);
}

#[test]
fn failed_events_keep_the_day() {
    let mut time = Time(4);
    let mut cache = CacheLogEvent::new();
    let sent = post_new_event(event(false, 1), &mut time, &mut cache);
    assert_eq!(sent.time, 4);
    assert_eq!(time.get(), 4);
    assert_eq!(sent.error.as_deref(), Some("NonPositiveQuantity"));
}

#[test]
fn the_day_counts_successful_actions() {
    let mut time = Time::new();
    let mut cache = CacheLogEvent::new();
    let results = [true, false, true, true, false];
    let mut days = Vec::new();
    for (i, r) in results.iter().enumerate() {
        days.push(post_new_event(event(*r, i as u32), &mut time, &mut cache).time);
    }
    assert_eq!(days, vec![1, 1, 2, 3, 3]);
    assert_eq!(time.get(), 3);
}

#[test]
fn late_clients_get_every_logged_event_in_order() {
    let mut time = Time::new();
    let mut cache = CacheLogEvent::new();
    for i in 0..4 {
        post_new_event(event(i % 2 == 0, i), &mut time, &mut cache);
    }
    let copy = cache.clone_vec();
    assert_eq!(copy.len(), 4);
    let mut replay = cache.iter();
    let running = Block::new();
    for i in 0..4 {
        match poll_log_replay(&mut replay, &running) {
            ReplayPoll::Replay(e) => {
                assert_eq!(e.event.quantity, i);
                assert_eq!(e.time, copy[i as usize].time);
            }
            _ => panic!("the cache is replayed first"),
        }
    }
    assert!(matches!(poll_log_replay(&mut replay, &running), ReplayPoll::Listen));
}

#[test]
fn paused_streams_hand_out_nothing() {
    let mut time = Time::new();
    let mut cache = CacheLogEvent::new();
    post_new_event(event(true, 9), &mut time, &mut cache);
    let mut replay = cache.iter();
    let paused = Block(true);
    assert!(matches!(poll_log_replay(&mut replay, &paused), ReplayPoll::Paused));
    assert!(matches!(poll_log_replay(&mut replay, &paused), ReplayPoll::Paused));
    match poll_log_replay(&mut replay, &Block(false)) {
        ReplayPoll::Replay(e) => assert_eq!(e.event.quantity, 9),
        _ => panic!("the event was kept"),
    }
}

#[test]
fn a_replay_is_a_snapshot() {
    let mut cache = CacheTraderInfo::new();
    cache.add(info(TraderGraphSeries::EUR, 1));
    let mut replay = cache.iter();
    cache.add(info(TraderGraphSeries::USD, 2));
    assert_eq!(cache.clone_vec().len(), 2);
    assert_eq!(replay.next().map(|i| i.quantity), Some(1));
    assert!(replay.next().is_none());
    assert!(replay.next().is_none());
}

#[test]
fn cache_log_event_next_pops_the_oldest() {
    let mut cache = CacheLogEvent::new();
    cache.add(event(true, 1));
    cache.add(event(true, 2));
    let mut it = cache.iter();
    assert_eq!(it.next().unwrap().event.quantity, 1);
    assert_eq!(it.next().unwrap().event.quantity, 2);
    assert!(it.next().is_none());
}

#[test]
fn log_events_clone_to_equal_events() {
    let e = event(false, 5);
    let c = e.clone();
    assert_eq!(c.time, e.time);
    assert_eq!(c.market, e.market);
    assert_eq!(c.error, e.error);
    assert_eq!(c.event.quantity, e.event.quantity);
}

#[test]
fn received_items_decide_the_stream() {
    assert!(matches!(on_received(Received::Message(3u8)), StreamAction::Emit(3)));
    assert!(matches!(on_received::<u8>(Received::Lagged(7)), StreamAction::Skip));
    assert!(matches!(on_received::<u8>(Received::Closed), StreamAction::Stop));
    assert!(matches!(on_received::<u8>(Received::Shutdown), StreamAction::Stop));
}

#[test]
fn series_names() {
    assert_eq!(TraderGraphSeries::EUR.to_string(), "EUR");
    assert_eq!(TraderGraphSeries::USD.to_string(), "USD");
    assert_eq!(TraderGraphSeries::YEN.to_string(), "YEN");
    assert_eq!(TraderGraphSeries::YUAN.to_string(), "YUAN");
    assert_eq!(TraderGraphSeries::TOT.to_string(), "TOT");
}

#[test]
fn trader_goods_are_sorted_by_series_name() {
    let goods = vec![
        info(TraderGraphSeries::YUAN, 1),
        info(TraderGraphSeries::USD, 2),
        info(TraderGraphSeries::TOT, 3),
        info(TraderGraphSeries::EUR, 4),
        info(TraderGraphSeries::YEN, 5),
        info(TraderGraphSeries::USD, 6),
    ];
    let sorted = sort_infos_by_name(&goods);
    let quantities: Vec<u32> = sorted.iter().map(|g| g.quantity).collect();
    assert_eq!(quantities, vec![4, 3, 2, 6, 5, 1]);
    let mut names: Vec<String> = goods.iter().map(|g| g.kind.to_string()).collect();
    names.sort();
    let sorted_names: Vec<String> = sorted.iter().map(|g| g.kind.to_string()).collect();
    assert_eq!(names, sorted_names);
}

#[test]
fn trader_posts_are_stamped_recorded_and_totalled() {
    let goods = vec![info(TraderGraphSeries::YEN, 5), info(TraderGraphSeries::EUR, 4)];
    let time = Time(12);
    let ordered = order_trader_goods(&goods, &time);
    assert_eq!(ordered.len(), 2);
    assert!(ordered.iter().all(|g| g.time == 12));
    assert_eq!(ordered[0].kind, TraderGraphSeries::EUR);
    let mut cache = CacheTraderInfo::new();
    cache.add(info(TraderGraphSeries::TOT, 0));
    let sent = post_trader_goods(&ordered, 9, &time, &mut cache);
    assert_eq!(sent.len(), 3);
    assert_eq!(sent[2].kind, TraderGraphSeries::TOT);
    assert_eq!(sent[2].quantity, 9);
    assert_eq!(sent[2].time, 12);
    let cached = cache.clone_vec();
    assert_eq!(cached.len(), 4);
    assert_eq!(cached[1].quantity, 4);
    assert_eq!(cached[2].quantity, 5);
    assert_eq!(cached[3].quantity, 9);
    let mut replay = cache.iter();
    let running = Block::new();
    let mut seen = Vec::new();
    while let ReplayPoll::Replay(g) = poll_trader_replay(&mut replay, &running) {
        seen.push(g.quantity);
    }
    assert_eq!(seen, vec![0, 4, 5, 9]);
}

#[test]
fn cached_days_count_successes_so_far() {
    let mut time = Time(10);
    let mut cache = CacheLogEvent::new();
    cache.add(event(true, 100));
    for (i, r) in [false, true, true, false, true].iter().enumerate() {
        post_new_event(event(*r, i as u32), &mut time, &mut cache);
    }
    let cached = cache.clone_vec();
    let times: Vec<u32> = cached.iter().skip(1).map(|e| e.time).collect();
    assert_eq!(times, vec![10, 11, 12, 12, 13]);
    assert_eq!(cached[0].event.quantity, 100);
    assert_eq!(time.get(), 13);
}

#[test]
fn log_replay_ignores_later_events() {
    let mut cache = CacheLogEvent::new();
    cache.add(event(true, 1));
    cache.add(event(false, 2));
    let mut replay = cache.iter();
    cache.add(event(true, 3));
    assert_eq!(replay.next().map(|e| e.event.quantity), Some(1));
    assert_eq!(replay.next().map(|e| e.event.quantity), Some(2));
    assert!(replay.next().is_none());
    assert!(replay.next().is_none());
    assert_eq!(cache.clone_vec().len(), 3);
}

#[test]
fn k_increments_move_the_day_by_k() {
    let mut time = Time(40);
    let mut last = 0;
    for _ in 0..25 {
        last = time.increment_one();
    }
    assert_eq!(time.get(), 65);
    assert_eq!(last, 65);
    assert_eq!(time.get(), 65);
}
