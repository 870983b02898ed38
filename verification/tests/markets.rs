use data_visualizer::interfaces::{Channels, Time};
use data_visualizer::market::{fake_good_labels, sort_labels_by_name, GoodKind, GoodLabel};
use data_visualizer::server::{
    market_index, market_stream, multiplex, post_current_good_labels, source_url, SourceEvent,
    StreamAction,
};

fn label(good_kind: GoodKind, quantity: u32) -> GoodLabel<u32> {
    GoodLabel {
        good_kind,
        quantity,
        exchange_rate_buy: quantity + 1,
        exchange_rate_sell: quantity + 2,
    }
}

#[test]
fn known_markets_have_their_slots() {
    assert_eq!(market_index("BFB"), Some(0));
    assert_eq!(market_index("RCNZ"), Some(1));
    assert_eq!(market_index("ZSE"), Some(2));
}

#[test]
fn other_names_are_no_markets() {
    for name in ["", "bfb", "BFB ", "ZSEE", "RCN", "market"] {
        assert_eq!(market_index(name), None, "{}", name);
    }
}

#[test]
fn market_streams_of_unknown_markets_end_at_once() {
    assert_eq!(market_stream("ZSE"), (2, true));
    assert_eq!(market_stream("RCNZ"), (1, true));
    assert_eq!(market_stream("nowhere"), (0, false));
}

#[test]
fn good_names() {
    assert_eq!(GoodKind::EUR.to_string(), "EUR");
    assert_eq!(GoodKind::USD.to_string(), "USD");
    assert_eq!(GoodKind::YEN.to_string(), "YEN");
    assert_eq!(GoodKind::YUAN.to_string(), "YUAN");
}

#[test]
fn labels_are_sorted_by_name_and_stably() {
    let goods = vec![
        label(GoodKind::YUAN, 1),
        label(GoodKind::EUR, 2),
        label(GoodKind::YEN, 3),
        label(GoodKind::USD, 4),
        label(GoodKind::EUR, 5),
    ];
    let sorted = sort_labels_by_name(&goods);
    let kinds: Vec<GoodKind> = sorted.iter().map(|l| l.good_kind).collect();
    assert_eq!(kinds, vec![GoodKind::EUR, GoodKind::EUR, GoodKind::USD, GoodKind::YEN, GoodKind::YUAN]);
    let quantities: Vec<u32> = sorted.iter().map(|l| l.quantity).collect();
    assert_eq!(quantities, vec![2, 5, 4, 3, 1]);
    let mut names: Vec<String> = goods.iter().map(|l| l.good_kind.to_string()).collect();
    names.sort();
    let sorted_names: Vec<String> = sorted.iter().map(|l| l.good_kind.to_string()).collect();
    assert_eq!(names, sorted_names);
}

#[test]
fn posted_labels_become_market_updates_of_the_day() {
    let goods = vec![label(GoodKind::YEN, 10), label(GoodKind::EUR, 20)];
    let time = Time(6);
    let update = post_current_good_labels(&goods, "RCNZ", &time).expect("a known market");
    assert_eq!(update.index, 1);
    assert_eq!(update.goods.len(), 2);
    assert_eq!(update.goods[0].kind, GoodKind::EUR);
    assert_eq!(update.goods[0].value, 20);
    assert_eq!(update.goods[0].time, 6);
    assert_eq!(update.goods[1].kind, GoodKind::YEN);
    assert_eq!(update.goods[1].value, 10);
    assert_eq!(update.buy_rates[0].value, 21);
    assert_eq!(update.buy_rates[1].value, 11);
    assert_eq!(update.sell_rates[0].value, 22);
    assert_eq!(update.sell_rates[1].kind, GoodKind::YEN);
    assert_eq!(update.sell_rates[1].time, 6);
}

#[test]
fn labels_of_an_unknown_market_are_dropped() {
    let goods = vec![label(GoodKind::YEN, 10)];
    assert!(post_current_good_labels(&goods, "XYZ", &Time(0)).is_none());
}

#[test]
fn empty_posts_give_empty_updates() {
    let update = post_current_good_labels::<u32>(&vec![], "BFB", &Time(3)).unwrap();
    assert_eq!(update.index, 0);
    assert!(update.goods.is_empty() && update.buy_rates.is_empty() && update.sell_rates.is_empty());
}

#[test]
fn source_messages_are_tagged_with_their_channel() {
    match multiplex(Channels::CurrentBuyRate, SourceEvent::Message("{\"a\":1}".to_string())) {
        StreamAction::Emit(msg) => {
            assert_eq!(msg.channel, Channels::CurrentBuyRate);
            assert_eq!(msg.log, "{\"a\":1}");
        }
        _ => panic!("a message goes on"),
    }
    assert!(matches!(multiplex(Channels::CurrentGoods, SourceEvent::Other), StreamAction::Skip));
    assert!(matches!(multiplex(Channels::CurrentGoods, SourceEvent::Ended), StreamAction::Stop));
    assert!(matches!(multiplex(Channels::CurrentSellRate, SourceEvent::Shutdown), StreamAction::Stop));
}

#[test]
fn source_addresses() {
    assert_eq!(source_url(Channels::CurrentGoods, "BFB"), "http://localhost:8000/currentGoods/BFB");
    assert_eq!(source_url(Channels::CurrentBuyRate, "ZSE"), "http://localhost:8000/currentBuyRate/ZSE");
    assert_eq!(source_url(Channels::CurrentSellRate, "RCNZ"), "http://localhost:8000/currentSellRate/RCNZ");
}

#[test]
fn simulated_labels_follow_the_draws() {
    let labels = fake_good_labels(&[(1u32, 2, 3), (4, 5, 6), (7, 8, 9), (10, 11, 12)]);
    let kinds: Vec<GoodKind> = labels.iter().map(|l| l.good_kind).collect();
    assert_eq!(kinds, vec![GoodKind::EUR, GoodKind::YUAN, GoodKind::YEN, GoodKind::USD]);
    assert_eq!(labels[1].quantity, 4);
    assert_eq!(labels[2].exchange_rate_buy, 8);
    assert_eq!(labels[3].exchange_rate_sell, 12);
}
