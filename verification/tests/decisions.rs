use nginx_stats::engine::{decide, Decision, Thresholds};
use nginx_stats::report::{bitrate_message, u32_decimal};
use nginx_stats::stats::NginxRtmpStream;

fn rec(bw_video: u32) -> NginxRtmpStream {
    NginxRtmpStream { name: "cam".to_string(), bw_video, meta: None }
}

#[test]
fn absent_record_is_offline_whatever_the_thresholds() {
    let cases = vec![
        Thresholds { offline: Some(700), low: Some(600) },
        Thresholds { offline: Some(0), low: Some(0) },
        Thresholds { offline: None, low: Some(600) },
        Thresholds { offline: Some(700), low: None },
        Thresholds { offline: None, low: None },
    ];
    for t in cases {
        assert_eq!(decide(&None, &t), Decision::Offline);
    }
}

#[test]
fn zero_bitrate_is_previous_even_with_offline_threshold() {
    let t = Thresholds { offline: Some(1000), low: Some(600) };
    assert_eq!(decide(&Some(rec(0)), &t), Decision::Previous);
    // below 1024 bits/sec the kilobit reading still truncates to zero
    assert_eq!(decide(&Some(rec(1023)), &t), Decision::Previous);
    let t2 = Thresholds { offline: Some(0), low: None };
    assert_eq!(decide(&Some(rec(0)), &t2), Decision::Previous);
}

#[test]
fn nonzero_bitrate_under_offline_threshold_is_offline() {
    let t = Thresholds { offline: Some(500), low: None };
    // 1024 bits/sec is 1 kbit/sec: nonzero and far under the threshold
    assert_eq!(decide(&Some(rec(1024)), &t), Decision::Offline);
    assert_eq!(decide(&Some(rec(500 * 1024)), &t), Decision::Offline);
    // just above the threshold
    assert_eq!(decide(&Some(rec(501 * 1024)), &t), Decision::Normal);
}

#[test]
fn low_threshold_without_offline_splits_low_and_normal() {
    let t = Thresholds { offline: None, low: Some(600) };
    assert_eq!(decide(&Some(rec(600 * 1024)), &t), Decision::Low);
    assert_eq!(decide(&Some(rec(601 * 1024)), &t), Decision::Normal);
    assert_eq!(decide(&Some(rec(1024)), &t), Decision::Low);
}

#[test]
fn decide_is_idempotent_on_unchanged_inputs() {
    let t = Thresholds { offline: Some(400), low: Some(600) };
    let stats = Some(rec(512000));
    let first = decide(&stats, &t);
    let second = decide(&stats, &t);
    assert_eq!(first, second);
    let none_first = decide(&None, &t);
    let none_second = decide(&None, &t);
    assert_eq!(none_first, none_second);
}

#[test]
fn example_scenario_512000_bits() {
    // 512000 bits/sec is 500 kbit/sec
    let stats = Some(rec(512000));
    let low_600 = Thresholds { offline: None, low: Some(600) };
    assert_eq!(decide(&stats, &low_600), Decision::Low);
    let low_400 = Thresholds { offline: None, low: Some(400) };
    assert_eq!(decide(&stats, &low_400), Decision::Normal);
    // the offline threshold takes precedence over the low threshold
    let off_600 = Thresholds { offline: Some(600), low: Some(600) };
    assert_eq!(decide(&stats, &off_600), Decision::Offline);
}

#[test]
fn bitrate_message_formats_kilobits() {
    let msg = bitrate_message(&Some(rec(512000)));
    assert_eq!(msg.as_deref(), Some("500"));
    assert_eq!(bitrate_message(&Some(rec(0))).as_deref(), Some("0"));
    assert_eq!(bitrate_message(&Some(rec(1023))).as_deref(), Some("0"));
    assert_eq!(bitrate_message(&None), None);
}

#[test]
fn decimal_rendering_is_exact() {
    assert_eq!(u32_decimal(0), "0");
    assert_eq!(u32_decimal(7), "7");
    assert_eq!(u32_decimal(1024), "1024");
    assert_eq!(u32_decimal(4294967295), "4294967295");
}
