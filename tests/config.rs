use std::time::Duration;
use tk_http::Config;

#[test]
fn defaults() {
    let c = Config::new();
    assert_eq!(c.ping_interval, Duration::from_secs(10));
    assert_eq!(c.message_timeout, Duration::from_secs(30));
    assert_eq!(c.byte_timeout, Duration::from_secs(30));
    assert_eq!(c.max_packet_size, 10 << 20);
}

#[test]
fn inactivity_sets_both_timeouts() {
    let mut c = Config::new();
    c.inactivity_timeout(Duration::from_secs(5));
    assert_eq!(c.message_timeout, Duration::from_secs(5));
    assert_eq!(c.byte_timeout, Duration::from_secs(5));
    assert_eq!(c.ping_interval, Duration::from_secs(10));
    assert_eq!(c.max_packet_size, 10485760);
}

#[test]
fn setters_chain_and_touch_one_field() {
    let mut c = Config::new();
    c.ping_interval(Duration::from_secs(1))
        .message_timeout(Duration::from_secs(2))
        .byte_timeout(Duration::from_secs(3))
        .max_packet_size(4);
    assert_eq!(c.ping_interval, Duration::from_secs(1));
    assert_eq!(c.message_timeout, Duration::from_secs(2));
    assert_eq!(c.byte_timeout, Duration::from_secs(3));
    assert_eq!(c.max_packet_size, 4);
}

#[test]
fn zero_values_accepted() {
    let mut c = Config::new();
    c.ping_interval(Duration::from_secs(0)).max_packet_size(0);
    assert_eq!(c.ping_interval, Duration::ZERO);
    assert_eq!(c.max_packet_size, 0);
}

#[test]
fn handles_are_independent() {
    let mut b = Config::new();
    let first = b.done();
    b.ping_interval(Duration::from_secs(60));
    let second = b.done();
    assert_eq!(first.ping_interval, Duration::from_secs(10));
    assert_eq!(second.ping_interval, Duration::from_secs(60));
    b.max_packet_size(1);
    assert_eq!(first.max_packet_size, 10 << 20);
    assert_eq!(second.max_packet_size, 10 << 20);
    assert_eq!(b.max_packet_size, 1);
}
