use internet_health::config::{
    links_or_default, listen_port, targets_or_default, Config, EnvVars, LinkConfig,
};
use internet_health::discovery::{announcements_for_link, payload_or_empty, SensorConfig};
use internet_health::mqtt::{
    client_id, fresh_client_id, make_recommended_topic, make_session, make_state_topic, MqttConfig,
    MqttVars, Qos,
};
use internet_health::text::{eq_ignoring_ascii_case, flag_or, number_or_default, parse_unsigned};

fn some(s: &str) -> Option<String> {
    Some(s.to_string())
}

fn no_mqtt() -> MqttVars {
    MqttVars {
        host: None,
        port: None,
        username: None,
        password: None,
        base_topic: None,
        discovery: None,
        qos: None,
        retain: None,
    }
}

fn no_vars() -> EnvVars {
    EnvVars {
        interval_secs: None,
        request_timeout_ms: None,
        degraded_latency_ms: None,
        window_size: None,
        targets_json: None,
        burst_count: None,
        burst_interval_ms: None,
        mqtt: no_mqtt(),
    }
}

fn broker() -> MqttConfig {
    MqttConfig::from_env(&MqttVars { host: some("broker"), ..no_mqtt() }).unwrap()
}

#[test]
fn numerals() {
    assert_eq!(parse_unsigned("0", 10), Some(0));
    assert_eq!(parse_unsigned("+7", 10), Some(7));
    assert_eq!(parse_unsigned("007", 10), Some(7));
    assert_eq!(parse_unsigned("10", 10), Some(10));
    assert_eq!(parse_unsigned("11", 10), None);
    assert_eq!(parse_unsigned("9", 5), None);
    let max = u128::MAX.to_string();
    assert_eq!(parse_unsigned(&max, u128::MAX), Some(u128::MAX));
    assert_eq!(parse_unsigned("340282366920938463463374607431768211456", u128::MAX), None);
    for bad in ["", "+", "-1", "-0", " 1", "1 ", "1.5", "0x1", "++1", "1_000", "\u{663}"] {
        assert_eq!(parse_unsigned(bad, u128::MAX), None);
    }
}

#[test]
fn numerals_agree_with_the_standard_library() {
    for s in ["0", "255", "256", "+255", "0255", "", "+", "-0", "abc", "25a", "99999999999"] {
        let expected = s.parse::<u8>().ok().map(|n| n as u128);
        assert_eq!(parse_unsigned(s, u8::MAX as u128), expected);
    }
}

#[test]
fn bad_numbers_fall_back() {
    assert_eq!(number_or_default(&None, 100, 7), 7);
    assert_eq!(number_or_default(&some("x"), 100, 7), 7);
    assert_eq!(number_or_default(&some("101"), 100, 7), 7);
    assert_eq!(number_or_default(&some("42"), 100, 7), 42);
}

#[test]
fn switches() {
    assert!(flag_or(&None, true));
    assert!(!flag_or(&None, false));
    for on in ["1", "true", "TRUE", "tRuE"] {
        assert!(flag_or(&some(on), false));
    }
    for off in ["0", "", "yes", "true ", "11", "on"] {
        assert!(!flag_or(&some(off), true));
    }
    assert!(eq_ignoring_ascii_case("aZ", "Az"));
    assert!(!eq_ignoring_ascii_case("\u{c4}", "\u{e4}"));
}

#[test]
fn defaults() {
    let c = Config::from_env(&no_vars(), None);
    assert_eq!(c.interval_secs, 30);
    assert_eq!(c.timeout_ms, 5000);
    assert_eq!(c.degraded_latency_ms, 750);
    assert_eq!(c.window_size, 10);
    assert_eq!(c.burst_count, 2);
    assert_eq!(c.burst_interval_ms, 5000);
    assert_eq!(
        c.targets,
        vec!["http://www.google.com/generate_204", "http://cp.cloudflare.com/generate_204"]
    );
    assert_eq!(c.links.len(), 1);
    assert_eq!(c.links[0].name, "default");
    assert!(c.links[0].socks5.is_none());
    assert!(c.links[0].weights.is_none());
    assert!(c.links[0].latency_baseline_ms.is_none());
    assert!(c.mqtt.is_none());
}

#[test]
fn given_settings_are_followed() {
    let vars = EnvVars {
        interval_secs: some("5"),
        request_timeout_ms: some("100"),
        degraded_latency_ms: some("340282366920938463463374607431768211455"),
        window_size: some("0"),
        targets_json: some("[\"http://a/\", \"http://b/\\u0063\"]"),
        burst_count: some("0"),
        burst_interval_ms: some("18446744073709551616"),
        mqtt: MqttVars { host: some("h"), ..no_mqtt() },
    };
    let link = LinkConfig {
        name: "wan1".to_string(),
        socks5: some("socks5h://192.168.1.10:1080"),
        weights: None,
        latency_baseline_ms: Some(9),
    };
    let c = Config::from_env(&vars, Some(vec![link]));
    assert_eq!(c.interval_secs, 5);
    assert_eq!(c.timeout_ms, 100);
    assert_eq!(c.degraded_latency_ms, u128::MAX);
    assert_eq!(c.window_size, 0);
    assert_eq!(c.burst_count, 0);
    assert_eq!(c.burst_interval_ms, 5000);
    assert_eq!(c.targets, vec!["http://a/", "http://b/c"]);
    assert_eq!(c.links.len(), 1);
    assert_eq!(c.links[0].name, "wan1");
    assert_eq!(c.links[0].latency_baseline_ms, Some(9));
    assert_eq!(c.mqtt.unwrap().host, "h");
}

#[test]
fn unusable_targets_fall_back() {
    for bad in ["", "nonsense", "{}", "[1]", "[\"a\"", "\"a\""] {
        let c = Config::from_env(&EnvVars { targets_json: some(bad), ..no_vars() }, None);
        assert_eq!(c.targets[0], "http://www.google.com/generate_204");
        assert_eq!(c.targets.len(), 2);
    }
    let c = Config::from_env(&EnvVars { targets_json: some("[]"), ..no_vars() }, None);
    assert!(c.targets.is_empty());
    assert_eq!(targets_or_default(Some(vec!["x".to_string()])), vec!["x"]);
    assert_eq!(targets_or_default(None).len(), 2);
    assert!(links_or_default(Some(Vec::new())).is_empty());
    assert_eq!(links_or_default(None)[0].name, "default");
}

#[test]
fn port() {
    assert_eq!(listen_port(&None), 8000);
    assert_eq!(listen_port(&some("9")), 9);
    assert_eq!(listen_port(&some("65536")), 8000);
}

#[test]
fn broker_defaults() {
    assert!(MqttConfig::from_env(&no_mqtt()).is_none());
    let c = broker();
    assert!(c.enabled);
    assert_eq!(c.port, 1883);
    assert_eq!(c.base_topic, "home/internet_health");
    assert!(c.discovery);
    assert!(c.retain);
    assert_eq!(c.qos, Qos::AtLeastOnce);
    assert!(c.username.is_none() && c.password.is_none());
}

#[test]
fn broker_settings() {
    let vars = MqttVars {
        host: some("b"),
        port: some("70000"),
        username: some("u"),
        password: some("p"),
        base_topic: some("x"),
        discovery: some("no"),
        qos: some("2"),
        retain: some("True"),
    };
    let c = MqttConfig::from_env(&vars).unwrap();
    assert_eq!(c.port, 1883);
    assert_eq!(c.qos, Qos::ExactlyOnce);
    assert!(!c.discovery);
    assert!(c.retain);
    assert_eq!(c.username.as_deref(), Some("u"));
    assert_eq!(c.password.as_deref(), Some("p"));
    for (level, qos) in [
        ("0", Qos::AtMostOnce),
        ("3", Qos::AtMostOnce),
        ("1", Qos::AtLeastOnce),
        ("256", Qos::AtLeastOnce),
    ] {
        let c = MqttConfig::from_env(&MqttVars { qos: some(level), ..vars.clone() }).unwrap();
        assert_eq!(c.qos, qos);
    }
}

#[test]
fn session_start() {
    let mut c = broker();
    c.username = some("u");
    let s = make_session(&c, "me");
    assert_eq!((s.client_id.as_str(), s.host.as_str(), s.port), ("me", "broker", 1883));
    assert_eq!(s.request_capacity, 10);
    assert!(s.credentials.is_none());
    assert_eq!(s.keep_alive_secs, 30);
    assert_eq!(s.will.topic, "home/internet_health/availability");
    assert_eq!(s.will.payload, "offline");
    assert_eq!(s.birth.topic, "home/internet_health/availability");
    assert_eq!(s.birth.payload, "online");
    assert_eq!(s.birth.qos, Qos::AtLeastOnce);
    assert!(s.will.retain);
    c.password = some("p");
    assert_eq!(make_session(&c, "me").credentials, Some(("u".to_string(), "p".to_string())));
}

#[test]
fn topics() {
    assert_eq!(make_state_topic("home/internet_health", "wan1"), "home/internet_health/wan1/state");
    assert_eq!(make_recommended_topic("b"), "b/recommended");
    assert_ne!(make_state_topic("b", "x"), make_state_topic("b", "y"));
}

#[test]
fn client_ids() {
    assert_eq!(client_id("aB3xyz"), "internet-health-aB3xyz");
    let id = fresh_client_id();
    let suffix = id.strip_prefix("internet-health-").unwrap();
    assert_eq!(suffix.len(), 6);
    assert!(suffix.chars().all(|c| c.is_ascii_alphanumeric()));
    let other: Vec<String> = (0..4).map(|_| fresh_client_id()).collect();
    assert!(other.iter().any(|o| *o != id));
}

fn parsed(bytes: &[u8]) -> serde_json::Value {
    serde_json::from_slice(bytes).unwrap()
}

#[test]
fn discovery_documents() {
    let list = announcements_for_link(&broker(), "wan\"1");
    assert_eq!(list.len(), 2);
    assert_eq!(list[0].topic, "homeassistant/sensor/internet_health_wan\"1_status/config");
    assert_eq!(list[1].topic, "homeassistant/sensor/internet_health_wan\"1_score/config");
    assert_eq!(list[0].qos, Qos::AtLeastOnce);
    assert!(list[0].retain);

    let status = parsed(&list[0].payload);
    assert_eq!(status["name"], "Internet wan\"1 Status");
    assert_eq!(status["uniq_id"], "internet_health_wan\"1_status");
    assert_eq!(status["stat_t"], "home/internet_health/wan\"1/state");
    assert_eq!(status["val_tpl"], "{{ value_json.status }}");
    assert_eq!(status["avty_t"], "home/internet_health/availability");
    assert_eq!(status["json_attr_t"], "home/internet_health/wan\"1/state");
    assert_eq!(status["device"]["identifiers"][0], "internet_health_checker");
    assert_eq!(status["device"]["name"], "Internet Health Checker");
    assert_eq!(status["device"]["manufacturer"], "Gnattu");
    assert_eq!(status["device"]["model"], "internet-health-checker");
    assert_eq!(status.as_object().unwrap().len(), 7);
    assert_eq!(status["device"].as_object().unwrap().len(), 4);
    assert_eq!(status["device"]["identifiers"].as_array().unwrap().len(), 1);

    let score = parsed(&list[1].payload);
    assert_eq!(score["name"], "Internet wan\"1 Score");
    assert_eq!(score["uniq_id"], "internet_health_wan\"1_score");
    assert_eq!(score["val_tpl"], "{{ value_json.score }}");
    assert_eq!(score["unit_of_meas"], "");
    assert_eq!(score["stat_t"], "home/internet_health/wan\"1/state");
    assert_eq!(score["avty_t"], "home/internet_health/availability");
    assert_eq!(score["device"], status["device"]);
    assert_eq!(score.as_object().unwrap().len(), 7);
}

#[test]
fn discovery_can_be_switched_off() {
    let mut c = broker();
    c.discovery = false;
    assert!(announcements_for_link(&c, "a").is_empty());
}

#[test]
fn sensor_members() {
    let m = SensorConfig::for_score("b", "l").members();
    let keys: Vec<&str> = m.iter().map(|(k, _)| k.as_str()).collect();
    assert_eq!(keys, vec!["name", "uniq_id", "stat_t", "val_tpl", "avty_t", "unit_of_meas"]);
    assert_ne!(
        SensorConfig::for_status("b", "l").unique_id,
        SensorConfig::for_score("b", "l").unique_id
    );
}

#[test]
fn unencodable_payload_is_an_empty_object() {
    assert_eq!(payload_or_empty(None), b"{}".to_vec());
    assert_eq!(payload_or_empty(Some(vec![1, 2])), vec![1, 2]);
}
