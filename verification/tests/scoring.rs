use internet_health::config::{Config, EnvVars, LinkConfig, Weights};
use internet_health::links::{LinkTable, Timestamp};
use internet_health::mqtt::{MqttConfig, MqttVars, Qos};
use internet_health::score::{
    effective_weights, eval_status, latency_ratio, score_inputs, score_link, WeightBits,
};
use internet_health::single::{is_below_80_percent, to_single};
use internet_health::status::{clamp_score, status_for_score, InternetStatus};
use internet_health::window::{ProbeWindow, Ratio};

fn mqtt_vars() -> MqttVars {
    MqttVars {
        host: Some("h".to_string()),
        port: None,
        username: None,
        password: None,
        base_topic: Some("b".to_string()),
        discovery: None,
        qos: Some("0".to_string()),
        retain: Some("0".to_string()),
    }
}

fn config() -> Config {
    let vars = EnvVars {
        interval_secs: None,
        request_timeout_ms: None,
        degraded_latency_ms: Some("100".to_string()),
        window_size: Some("5".to_string()),
        targets_json: None,
        burst_count: None,
        burst_interval_ms: None,
        mqtt: mqtt_vars(),
    };
    Config::from_env(&vars, None)
}

fn at(secs: i64) -> Timestamp {
    Timestamp { secs, nanos: 0 }
}

fn name(s: &str) -> String {
    s.to_string()
}

/// A table with these links and scores, in this order.
fn table(scores: &[(&str, i64)]) -> LinkTable {
    let cfg = config();
    let link = LinkConfig::default();
    let mut t = LinkTable::new();
    for (n, percent) in scores {
        let n = name(n);
        t.register(&n, 5, at(1));
        let mut hist: Vec<u128> = vec![10];
        let inputs = t.record_round(&n, true, Some(10), at(2), &cfg, &link, &mut hist).unwrap();
        assert!(t.apply_score(&n, *percent, &inputs));
    }
    t
}

#[test]
fn status_bands() {
    assert_eq!(status_for_score(100), InternetStatus::Normal);
    assert_eq!(status_for_score(80), InternetStatus::Normal);
    assert_eq!(status_for_score(79), InternetStatus::Degraded);
    assert_eq!(status_for_score(40), InternetStatus::Degraded);
    assert_eq!(status_for_score(39), InternetStatus::Failed);
    assert_eq!(status_for_score(0), InternetStatus::Failed);
    assert_eq!(InternetStatus::default(), InternetStatus::Failed);
}

#[test]
fn scores_stay_on_the_scale() {
    assert_eq!(clamp_score(-1), 0);
    assert_eq!(clamp_score(i64::MIN), 0);
    assert_eq!(clamp_score(0), 0);
    assert_eq!(clamp_score(57), 57);
    assert_eq!(clamp_score(100), 100);
    assert_eq!(clamp_score(101), 100);
    assert_eq!(clamp_score(i64::MAX), 100);
}

#[test]
fn latency_marks() {
    assert_eq!(latency_ratio(None, 100), Ratio { num: 0, den: 1 });
    assert_eq!(latency_ratio(Some(0), 0), Ratio { num: 1, den: 1 });
    assert_eq!(latency_ratio(Some(100), 100), Ratio { num: 1, den: 1 });
    assert_eq!(latency_ratio(Some(101), 100), Ratio { num: 100, den: 101 });
}

#[test]
fn weights_fall_back_one_by_one() {
    let d = effective_weights(&None);
    assert_eq!(f32::from_bits(d.availability), 60.0);
    assert_eq!(f32::from_bits(d.latency), 30.0);
    assert_eq!(f32::from_bits(d.jitter), 10.0);
    let own = Weights { availability: None, latency: Some(1.5f32.to_bits()), jitter: None };
    let expected = WeightBits {
        availability: 60.0f32.to_bits(),
        latency: 1.5f32.to_bits(),
        jitter: 10.0f32.to_bits(),
    };
    assert_eq!(effective_weights(&Some(own)), expected);
}

#[test]
fn measurements() {
    let cfg = config();
    let mut link = LinkConfig::default();
    let mut w = ProbeWindow::new(5);
    w.push(true, Some(10));
    w.push(false, None);
    let i = score_inputs(&cfg, &link, &w, &[10, 200]);
    assert_eq!(i.availability, Ratio { num: 1, den: 2 });
    assert_eq!(i.p95_ms, Some(200));
    assert_eq!(i.latency, Ratio { num: 100, den: 200 });
    link.latency_baseline_ms = Some(300);
    let i = score_inputs(&cfg, &link, &w, &[10, 200]);
    assert_eq!(i.latency, Ratio { num: 1, den: 1 });
    assert_eq!(score_link(79, &i), (79, InternetStatus::Degraded, Some(200)));
    assert_eq!(score_link(500, &i), (100, InternetStatus::Normal, Some(200)));
}

#[test]
fn window_status() {
    let cfg = config();
    let mut w = ProbeWindow::new(5);
    assert_eq!(eval_status(&cfg, &w), InternetStatus::Failed);
    w.push(false, None);
    assert_eq!(eval_status(&cfg, &w), InternetStatus::Failed);
    for _ in 0..3 {
        w.push(true, Some(100));
    }
    assert_eq!(eval_status(&cfg, &w), InternetStatus::Degraded);
    w.push(true, Some(100));
    assert_eq!(eval_status(&cfg, &w), InternetStatus::Normal);
    w.push(true, Some(101));
    assert_eq!(eval_status(&cfg, &w), InternetStatus::Degraded);
    w.push(false, None);
    assert_eq!(eval_status(&cfg, &w), InternetStatus::Normal);
}

#[test]
fn window_status_agrees_with_the_floating_point_ratio() {
    let cfg = config();
    for len in 1..=60usize {
        for ok in 0..=len {
            let mut w = ProbeWindow::new(len);
            for i in 0..len {
                w.push(i < ok, None);
            }
            let ratio = ok as f32 / len as f32;
            let expected = if ratio == 0.0 {
                InternetStatus::Failed
            } else if ratio < 0.8 {
                InternetStatus::Degraded
            } else {
                InternetStatus::Normal
            };
            assert_eq!(eval_status(&cfg, &w), expected);
        }
    }
}

#[test]
fn unknown_link() {
    let cfg = config();
    let mut t = table(&[("a", 50)]);
    let other = name("b");
    assert!(t.status_payload(&other, 5).is_none());
    let mut hist: Vec<u128> = (0..600).collect();
    let link = LinkConfig::default();
    assert!(t.record_round(&other, true, None, at(9), &cfg, &link, &mut hist).is_none());
    assert_eq!(hist.len(), 600);
    let i = score_inputs(&cfg, &link, &ProbeWindow::new(1), &[]);
    assert!(!t.apply_score(&other, 90, &i));
    assert!(t.state_report(&other, 5, cfg.mqtt.as_ref().unwrap()).is_none());
    assert_eq!(t.status_payload(&name("a"), 5).unwrap().score, 50);
}

#[test]
fn registered_link_starts_failed() {
    let mut t = table(&[("a", 90), ("b", 60)]);
    t.register(&name("a"), 5, at(7));
    let p = t.status_payload(&name("a"), 5).unwrap();
    assert_eq!(p.status, InternetStatus::Failed);
    assert_eq!(p.score, 0);
    assert_eq!(p.latency_ms, None);
    assert_eq!(p.p95_ms, None);
    assert_eq!(p.ok_ratio, Ratio { num: 0, den: 1 });
    assert_eq!(p.last_checked, at(7));
    assert_eq!(t.scoreboard().links.len(), 2);
}

#[test]
fn status_shows_the_last_round() {
    let cfg = config();
    let link = LinkConfig::default();
    let a = name("a");
    let mut t = table(&[("a", 90), ("b", 60)]);
    let mut hist: Vec<u128> = (1..=600).collect();
    let i = t.record_round(&a, false, None, at(3), &cfg, &link, &mut hist).unwrap();
    assert_eq!(hist.len(), 500);
    assert_eq!(i.p95_ms, Some(575));
    assert!(t.apply_score(&a, 41, &i));
    let p = t.status_payload(&a, 12).unwrap();
    assert_eq!(p.score, 41);
    assert_eq!(p.status, InternetStatus::Degraded);
    assert_eq!(p.latency_ms, None);
    assert_eq!(p.p95_ms, Some(575));
    assert_eq!(p.ok_ratio, Ratio { num: 1, den: 2 });
    assert_eq!(p.window, 12);
    assert_eq!(p.last_checked, at(3));
    let b = t.status_payload(&name("b"), 12).unwrap();
    assert_eq!((b.score, b.last_checked), (60, at(2)));
}

#[test]
fn empty_table() {
    let t = LinkTable::new();
    assert!(t.best().is_none());
    let board = t.scoreboard();
    assert!(board.links.is_empty());
    assert!(board.recommended.is_none());
}

#[test]
fn scoreboard_ranks_by_score() {
    let t = table(&[("a", 50), ("b", 90), ("c", 50), ("d", 10), ("e", 90)]);
    let board = t.scoreboard();
    let names: Vec<&str> = board.links.iter().map(|e| e.name.as_str()).collect();
    assert_eq!(names, vec!["b", "e", "a", "c", "d"]);
    assert_eq!(board.recommended.as_deref(), Some("b"));
    assert_eq!(board.links[0].status, InternetStatus::Normal);
    assert_eq!(board.links[4].score, 10);
    assert_eq!(board.links[4].p95_ms, Some(10));
    assert_eq!(board.links[4].ok_ratio, Ratio { num: 1, den: 1 });
    assert_eq!(board.links[4].last_checked, at(2));
    assert_eq!(t.best(), Some(("e".to_string(), 90)));
}

#[test]
fn recommendations_agree_without_a_tie() {
    let t = table(&[("a", 50), ("b", 91), ("c", 90)]);
    assert_eq!(t.scoreboard().recommended.as_deref(), Some("b"));
    assert_eq!(t.best(), Some(("b".to_string(), 91)));
}

#[test]
fn state_report() {
    let t = table(&[("a", 50), ("b", 90)]);
    let mqtt = MqttConfig::from_env(&mqtt_vars()).unwrap();
    let r = t.state_report(&name("a"), 5, &mqtt).unwrap();
    assert_eq!(r.topic, "b/a/state");
    assert_eq!(r.payload.score, 50);
    assert_eq!(r.qos, Qos::AtMostOnce);
    assert!(!r.retain);
    assert_eq!(r.recommended.topic, "b/recommended");
    assert_eq!(r.recommended.payload, "b");
    assert_eq!(r.recommended.qos, Qos::AtMostOnce);
    assert!(!r.recommended.retain);
}

#[test]
fn told_share_is_of_the_latest_rounds() {
    let cfg = config();
    let link = LinkConfig::default();
    let a = name("a");
    let mut t = LinkTable::new();
    t.register(&a, 3, at(0));
    let mut hist: Vec<u128> = Vec::new();
    for (i, ok) in [true, true, false, false, true].into_iter().enumerate() {
        let now = at(i as i64);
        let inputs = t.record_round(&a, ok, None, now, &cfg, &link, &mut hist).unwrap();
        assert!(t.apply_score(&a, 50, &inputs));
    }
    assert_eq!(t.status_payload(&a, 3).unwrap().ok_ratio, Ratio { num: 1, den: 3 });
}

#[test]
fn counts_in_single_precision() {
    for n in [
        0usize, 1, 16_777_215, 16_777_216, 16_777_217, 16_777_218, 16_777_219, 33_554_430,
        33_554_431, 33_554_434, 33_554_438, 1 << 40, (1 << 40) + 65_536, (1 << 40) + 196_608,
    ] {
        assert_eq!(to_single(n), n as f32 as u128);
    }
    assert_eq!(to_single(16_777_217), 16_777_216);
    assert_eq!(to_single(16_777_219), 16_777_220);
    assert_eq!(to_single(usize::MAX), usize::MAX as f32 as u128);
}

#[test]
fn shares_in_single_precision() {
    assert!(!is_below_80_percent(9_600_003, 12_000_004));
    assert!(is_below_80_percent(8_947_847, 11_184_809));
    assert!(!is_below_80_percent(8_947_848, 11_184_810));
    for whole in [
        5usize, 7, 10, 999, 11_184_810, 11_184_811, 11_184_814, 12_000_004, 12_000_005, 16_777_217,
        40_000_003, 1_000_000_007, 5_000_000_000_000,
    ] {
        for part in whole / 5 * 4 - 3..=(whole / 5 * 4 + 7).min(whole) {
            let expected = (part as f32 / whole as f32) < 0.8;
            assert_eq!(is_below_80_percent(part, whole), expected, "{} of {}", part, whole);
        }
    }
}
