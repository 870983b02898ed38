use data_visualizer::interfaces::{Block, Delay, Time};
use data_visualizer::server::{block, get_delay, set_delay, unblock, CHANNEL_CAPACITY};
use data_visualizer::text::parse_u32;

#[test]
fn time_starts_at_day_zero_and_counts_up() {
    let mut time = Time::new();
    assert_eq!(time.get(), 0);
    assert_eq!(time.increment_one(), 1);
    assert_eq!(time.increment_one(), 2);
    assert_eq!(time.get(), 2);
}

#[test]
fn time_reaches_the_last_day() {
    let mut time = Time(u32::MAX - 1);
    assert_eq!(time.increment_one(), u32::MAX);
    assert_eq!(time.get(), u32::MAX);
}

#[test]
fn delay_starts_at_one_second() {
    let delay = Delay::new();
    assert_eq!(get_delay(&delay), 1000);
}

#[test]
fn set_delay_reads_decimal_text() {
    let mut delay = Delay::new();
    set_delay("250", &mut delay);
    assert_eq!(get_delay(&delay), 250);
    set_delay("+0", &mut delay);
    assert_eq!(get_delay(&delay), 0);
    delay.set(77);
    assert_eq!(delay.get(), 77);
}

#[test]
fn parse_u32_accepts_what_std_accepts() {
    for text in ["0", "7", "+7", "007", "4294967295", "123456789"] {
        assert_eq!(parse_u32(text), text.parse::<u32>().ok(), "{}", text);
    }
    assert_eq!(parse_u32("+42"), Some(42));
    assert_eq!(parse_u32("4294967295"), Some(u32::MAX));
}

#[test]
fn parse_u32_refuses_what_std_refuses() {
    for text in ["", "+", "-", "-1", "-0", " 1", "1 ", "12a", "4294967296", "99999999999", "++1", "١"] {
        assert_eq!(parse_u32(text), None, "{}", text);
        assert!(text.parse::<u32>().is_err(), "{}", text);
    }
}

#[test]
fn block_and_unblock_set_the_flag() {
    let mut stop = Block::new();
    assert!(!stop.0);
    block(&mut stop);
    assert!(stop.0);
    unblock(&mut stop);
    assert!(!stop.0);
}

#[test]
fn channels_hold_many_messages() {
    assert_eq!(CHANNEL_CAPACITY, 16536);
}
