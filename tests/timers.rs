use timing_server::clock::Clock;
use timing_server::decimal::to_decimal;
use timing_server::registry::{cleanup_stale_timers, TimerRegistry, MAX_TIMER_AGE_NANOS};
use timing_server::route::{extract_name, parse_request, Request};
use timing_server::service::read_clock;

fn chars(s: &str) -> Vec<char> {
    s.chars().collect()
}

fn text(v: &[char]) -> String {
    v.iter().collect()
}

fn serve(reg: &mut TimerRegistry, url: &str, now: u128) -> String {
    reg.serve_at(parse_request(url), now)
}

#[test]
fn extract_name_takes_rest_of_path() {
    assert_eq!(extract_name("/start?name=abc").map(|n| text(&n)), Some("abc".to_string()));
    assert_eq!(extract_name("/stop?name=a&x=1").map(|n| text(&n)), Some("a&x=1".to_string()));
    assert_eq!(extract_name("/start?name=").map(|n| text(&n)), Some(String::new()));
}

#[test]
fn extract_name_keeps_second_key() {
    assert_eq!(extract_name("/stop?name=a&name=b").map(|n| text(&n)), Some("a&name=b".to_string()));
    assert_eq!(extract_name("/start?name=name=x").map(|n| text(&n)), Some("name=x".to_string()));
}

#[test]
fn extract_name_absent() {
    assert!(extract_name("/start").is_none());
    assert!(extract_name("/start?nam=a").is_none());
    assert!(extract_name("").is_none());
}

#[test]
fn extract_name_non_ascii() {
    assert_eq!(extract_name("/start?name=zeit\u{e9}").map(|n| text(&n)), Some("zeit\u{e9}".to_string()));
}

#[test]
fn parse_request_routes_by_prefix() {
    assert!(matches!(parse_request("/now"), Request::Now));
    assert!(matches!(parse_request("/nowadays?name=a"), Request::Now));
    assert!(matches!(parse_request("/start?name=a"), Request::Start(Some(ref n)) if text(n) == "a"));
    assert!(matches!(parse_request("/start"), Request::Start(None)));
    assert!(matches!(parse_request("/stop?name=b"), Request::Stop(Some(ref n)) if text(n) == "b"));
    assert!(matches!(parse_request("/stop"), Request::Stop(None)));
    assert!(matches!(parse_request("/frobnicate"), Request::Unknown));
    assert!(matches!(parse_request("now"), Request::Unknown));
    assert!(matches!(parse_request(""), Request::Unknown));
}

#[test]
fn decimal_text() {
    assert_eq!(to_decimal(0), "0");
    assert_eq!(to_decimal(7), "7");
    assert_eq!(to_decimal(10), "10");
    assert_eq!(to_decimal(1234567890), "1234567890");
    assert_eq!(to_decimal(u128::MAX), "340282366920938463463374607431768211455");
}

#[test]
fn start_then_stop_reports_elapsed_once() {
    let mut reg = TimerRegistry::new();
    reg.start(chars("a"), 1_000);
    assert_eq!(reg.stop(&chars("a"), 1_500), Some(500));
    assert_eq!(reg.stop(&chars("a"), 1_600), None);
}

#[test]
fn stop_before_start_instant_is_zero() {
    let mut reg = TimerRegistry::new();
    reg.start(chars("a"), 1_000);
    assert_eq!(reg.stop(&chars("a"), 900), Some(0));
}

#[test]
fn stop_never_started() {
    let mut reg = TimerRegistry::new();
    assert_eq!(serve(&mut reg, "/stop?name=ghost", 5), "-1");
    reg.start(chars("a"), 0);
    assert_eq!(reg.stop(&chars("b"), 10), None);
}

#[test]
fn restart_measures_from_second_start() {
    let mut reg = TimerRegistry::new();
    assert_eq!(serve(&mut reg, "/start?name=t", 100), "0");
    assert_eq!(serve(&mut reg, "/start?name=t", 400), "0");
    assert_eq!(serve(&mut reg, "/stop?name=t", 1_000), "600");
    assert_eq!(serve(&mut reg, "/stop?name=t", 1_001), "-1");
}

#[test]
fn stale_timer_is_evicted_by_its_stop() {
    let mut reg = TimerRegistry::new();
    assert_eq!(serve(&mut reg, "/start?name=a", 0), "0");
    assert_eq!(serve(&mut reg, "/stop?name=a", MAX_TIMER_AGE_NANOS), "-1");
}

#[test]
fn timer_just_under_age_is_kept() {
    let mut reg = TimerRegistry::new();
    assert_eq!(serve(&mut reg, "/start?name=a", 0), "0");
    assert_eq!(serve(&mut reg, "/stop?name=a", 29_999_999_999), "29999999999");
}

#[test]
fn stale_timer_is_evicted_by_other_request() {
    let mut reg = TimerRegistry::new();
    assert_eq!(serve(&mut reg, "/start?name=a", 1_000), "0");
    assert_eq!(serve(&mut reg, "/start?name=b", 1_000 + 31_000_000_000), "0");
    assert_eq!(serve(&mut reg, "/stop?name=a", 1_000 + 31_000_000_001), "-1");
    assert_eq!(serve(&mut reg, "/stop?name=b", 1_000 + 31_000_000_001), "1");
}

#[test]
fn unknown_path_sweeps_too() {
    let mut reg = TimerRegistry::new();
    reg.start(chars("a"), 0);
    assert_eq!(serve(&mut reg, "/frobnicate", 40_000_000_000), "unknown");
    assert_eq!(reg.stop(&chars("a"), 0), None);
}

#[test]
fn clock_reading_leaves_stale_timers() {
    let mut reg = TimerRegistry::new();
    reg.start(chars("a"), 0);
    assert_eq!(serve(&mut reg, "/now", 40_000_000_000), "40000000000");
    assert_eq!(reg.stop(&chars("a"), 40_000_000_000), Some(40_000_000_000));
}

#[test]
fn cleanup_keeps_only_fresh_timers() {
    let mut reg = TimerRegistry::new();
    reg.start(chars("old"), 0);
    reg.start(chars("mid"), 10_000_000_000);
    reg.start(chars("new"), 35_000_000_000);
    cleanup_stale_timers(&mut reg, 40_000_000_000);
    assert_eq!(reg.stop(&chars("old"), 40_000_000_000), None);
    assert_eq!(reg.stop(&chars("mid"), 40_000_000_000), None);
    assert_eq!(reg.stop(&chars("new"), 40_000_000_000), Some(5_000_000_000));
}

#[test]
fn distinct_names_do_not_interfere() {
    let mut reg = TimerRegistry::new();
    let n: u128 = 50;
    for i in 0..n {
        let url = format!("/start?name=t{}", i);
        assert_eq!(serve(&mut reg, &url, 1_000 * i), "0");
    }
    for i in (0..n).rev() {
        let url = format!("/stop?name=t{}", i);
        let now = 1_000_000 + i;
        assert_eq!(serve(&mut reg, &url, now), (now - 1_000 * i).to_string());
    }
    for i in 0..n {
        let url = format!("/stop?name=t{}", i);
        assert_eq!(serve(&mut reg, &url, 2_000_000), "-1");
    }
}

#[test]
fn example_scenario_at_fixed_instants() {
    let mut reg = TimerRegistry::new();
    assert_eq!(serve(&mut reg, "/start?name=a", 5_000), "0");
    assert_eq!(serve(&mut reg, "/stop?name=a", 5_000 + 10_000_000), "10000000");
    assert_eq!(serve(&mut reg, "/stop?name=a", 5_000 + 10_000_001), "-1");
}

#[test]
fn missing_name_and_unknown_route() {
    let mut reg = TimerRegistry::new();
    assert_eq!(serve(&mut reg, "/start", 1), "-1");
    assert_eq!(serve(&mut reg, "/stop", 1), "-1");
    assert_eq!(serve(&mut reg, "/frobnicate", 1), "unknown");
}

#[test]
fn example_scenario_with_clock() {
    let mut clock = Clock::new();
    let mut reg = TimerRegistry::new();
    assert_eq!(reg.serve(parse_request("/start?name=a"), &mut clock), "0");
    let began = clock.elapsed_nanos();
    while clock.elapsed_nanos() < began + 10_000_000 {}
    let d: u128 = reg.serve(parse_request("/stop?name=a"), &mut clock).parse().unwrap();
    assert!(d >= 9_000_000);
    assert!(d < 1_000_000_000);
    assert_eq!(reg.serve(parse_request("/stop?name=a"), &mut clock), "-1");
}

#[test]
fn clock_is_monotonic_and_starts_near_zero() {
    let mut clock = Clock::new();
    let first: u128 = read_clock(&mut clock).parse().unwrap();
    assert!(first < 1_000_000_000);
    let mut last = first;
    for _ in 0..1000 {
        let next: u128 = read_clock(&mut clock).parse().unwrap();
        assert!(next >= last);
        last = next;
    }
}

#[test]
fn name_with_repeated_key_is_one_timer() {
    let mut reg = TimerRegistry::new();
    assert_eq!(serve(&mut reg, "/start?name=a&name=b", 10), "0");
    assert_eq!(serve(&mut reg, "/stop?name=a&name=b", 25), "15");
    assert_eq!(reg.stop(&chars("a&"), 30), None);
}

#[test]
fn clock_readings_and_requests_share_one_timeline() {
    let mut clock = Clock::new();
    let mut reg = TimerRegistry::new();
    let before: u128 = read_clock(&mut clock).parse().unwrap();
    assert_eq!(reg.serve(parse_request("/start?name=x"), &mut clock), "0");
    let mid = clock.elapsed_nanos();
    assert!(mid >= before);
    let d: u128 = reg.serve(parse_request("/stop?name=x"), &mut clock).parse().unwrap();
    let after: u128 = read_clock(&mut clock).parse().unwrap();
    assert!(after >= mid);
    assert!(d <= after - before);
}
