//! The configuration of the service, read out of the settings that it was given.

use crate::mqtt::{MqttConfig, MqttVars};
use crate::text::number_or_default;
use vstd::prelude::*;

verus! {

/// The settings as they were given, each one where it was given at all.
#[derive(Debug, Clone)]
pub struct EnvVars {
    pub interval_secs: Option<String>,
    pub request_timeout_ms: Option<String>,
    pub degraded_latency_ms: Option<String>,
    pub window_size: Option<String>,
    pub targets_json: Option<String>,
    pub burst_count: Option<String>,
    pub burst_interval_ms: Option<String>,
    pub mqtt: MqttVars,
}

/// How much each part of a score counts, as far as a link has its own say. Each weight is held as
/// the bits of a single-precision number.
#[derive(Debug, Clone, Copy, PartialEq, Eq, Structural)]
pub struct Weights {
    pub availability: Option<u32>,
    pub latency: Option<u32>,
    pub jitter: Option<u32>,
}

#[derive(Debug, Clone)]
pub struct LinkConfig {
    pub name: String,
    pub socks5: Option<String>,
    pub weights: Option<Weights>,
    pub latency_baseline_ms: Option<u128>,
}

impl LinkConfig {
    /// The link that is watched where none is configured.
    pub open spec fn is_default(&self) -> bool {
        &&& self.name@ == "default"@
        &&& self.socks5 is None
        &&& self.weights is None
        &&& self.latency_baseline_ms is None
    }
}

impl Default for LinkConfig {
    fn default() -> (r: Self)
        ensures
            r.is_default(),
    {
        LinkConfig {
            name: "default".to_string(),
            socks5: None,
            weights: None,
            latency_baseline_ms: None,
        }
    }
}

#[derive(Debug, Clone)]
pub struct Config {
    pub interval_secs: u64,
    pub timeout_ms: u64,
    pub degraded_latency_ms: u128,
    pub window_size: usize,
    pub targets: Vec<String>,
    pub links: Vec<LinkConfig>,
    pub mqtt: Option<MqttConfig>,
    pub burst_count: usize,
    pub burst_interval_ms: u64,
}

/// The array of strings that a JSON text writes down, if it writes down one.
pub uninterp spec fn json_string_array(text: Seq<char>) -> Option<Seq<Seq<char>>>;

pub open spec fn opt_texts(v: Option<Vec<String>>) -> Option<Seq<Seq<char>>> {
    match v {
        Some(l) => Some(crate::text::texts(l@)),
        None => None,
    }
}

/// Calls `serde_json::from_str` for a `Vec<String>`. Claimed: the strings, or that there are
/// none, depend on the text alone. Which texts are JSON arrays of strings is left to the parser.
#[verifier::external_body]
fn parse_string_array(text: &str) -> (r: Option<Vec<String>>)
    ensures
        opt_texts(r) == json_string_array(text@),
{
    serde_json::from_str::<Vec<String>>(text).ok()
}

/// The targets that are probed where none are configured.
pub open spec fn default_targets() -> Seq<Seq<char>> {
    seq!["http://www.google.com/generate_204"@, "http://cp.cloudflare.com/generate_204"@]
}

pub open spec fn targets_or(parsed: Option<Seq<Seq<char>>>) -> Seq<Seq<char>> {
    match parsed {
        Some(t) => t,
        None => default_targets(),
    }
}

/// The configured targets, or the default ones where there is no usable list of them.
pub fn targets_or_default(parsed: Option<Vec<String>>) -> (r: Vec<String>)
    ensures
        crate::text::texts(r@) == targets_or(opt_texts(parsed)),
        parsed is Some ==> r == parsed->0,
{
    match parsed {
        Some(t) => t,
        None => {
            let mut t: Vec<String> = Vec::new();
            t.push("http://www.google.com/generate_204".to_string());
            t.push("http://cp.cloudflare.com/generate_204".to_string());
            assert(crate::text::texts(t@) =~= default_targets());
            t
        },
    }
}

/// The configured links, or the one default link where there is no usable list of them.
pub fn links_or_default(parsed: Option<Vec<LinkConfig>>) -> (r: Vec<LinkConfig>)
    ensures
        parsed is Some ==> r == parsed->0,
        parsed is None ==> r@.len() == 1 && r@[0].is_default(),
{
    match parsed {
        Some(l) => l,
        None => {
            let mut l: Vec<LinkConfig> = Vec::new();
            l.push(LinkConfig::default());
            l
        },
    }
}

/// What a setting that should hold a JSON array of strings gives.
pub open spec fn parsed_setting(var: Option<Seq<char>>) -> Option<Seq<Seq<char>>> {
    match var {
        Some(s) => json_string_array(s),
        None => None,
    }
}

impl Config {
    /// This is the configuration that the settings ask for.
    pub open spec fn follows(&self, vars: &EnvVars) -> bool {
        &&& self.interval_secs as nat == crate::text::number_or(
            crate::text::opt_text(vars.interval_secs),
            u64::MAX as nat,
            30,
        )
        &&& self.timeout_ms as nat == crate::text::number_or(
            crate::text::opt_text(vars.request_timeout_ms),
            u64::MAX as nat,
            5000,
        )
        &&& self.degraded_latency_ms as nat == crate::text::number_or(
            crate::text::opt_text(vars.degraded_latency_ms),
            u128::MAX as nat,
            750,
        )
        &&& self.window_size as nat == crate::text::number_or(
            crate::text::opt_text(vars.window_size),
            usize::MAX as nat,
            10,
        )
        &&& self.burst_count as nat == crate::text::number_or(
            crate::text::opt_text(vars.burst_count),
            usize::MAX as nat,
            2,
        )
        &&& self.burst_interval_ms as nat == crate::text::number_or(
            crate::text::opt_text(vars.burst_interval_ms),
            u64::MAX as nat,
            5000,
        )
        &&& crate::text::texts(self.targets@) == targets_or(
            parsed_setting(crate::text::opt_text(vars.targets_json)),
        )
        &&& self.mqtt is Some <==> vars.mqtt.host is Some
        &&& self.mqtt is Some ==> self.mqtt->0.follows(&vars.mqtt)
    }

    /// The configuration that the settings ask for. `links` is the list of links that was
    /// configured, where there is a usable one.
    pub fn from_env(vars: &EnvVars, links: Option<Vec<LinkConfig>>) -> (r: Self)
        ensures
            r.follows(vars),
            r.interval_secs as nat == crate::text::number_or(
                crate::text::opt_text(vars.interval_secs),
                u64::MAX as nat,
                30,
            ),
            r.timeout_ms as nat == crate::text::number_or(
                crate::text::opt_text(vars.request_timeout_ms),
                u64::MAX as nat,
                5000,
            ),
            r.degraded_latency_ms as nat == crate::text::number_or(
                crate::text::opt_text(vars.degraded_latency_ms),
                u128::MAX as nat,
                750,
            ),
            r.window_size as nat == crate::text::number_or(
                crate::text::opt_text(vars.window_size),
                usize::MAX as nat,
                10,
            ),
            r.burst_count as nat == crate::text::number_or(
                crate::text::opt_text(vars.burst_count),
                usize::MAX as nat,
                2,
            ),
            r.burst_interval_ms as nat == crate::text::number_or(
                crate::text::opt_text(vars.burst_interval_ms),
                u64::MAX as nat,
                5000,
            ),
            crate::text::texts(r.targets@) == targets_or(
                parsed_setting(crate::text::opt_text(vars.targets_json)),
            ),
            vars.targets_json is Some && json_string_array(vars.targets_json->0@) is Some ==> {
                let given = json_string_array(vars.targets_json->0@)->0;
                &&& r.targets@.len() == given.len()
                &&& forall|i: int| 0 <= i < given.len() ==> #[trigger] r.targets@[i]@ == given[i]
            },
            links is Some ==> r.links == links->0,
            links is None ==> r.links@.len() == 1 && r.links@[0].is_default(),
            r.mqtt is Some <==> vars.mqtt.host is Some,
            r.mqtt is Some ==> r.mqtt->0.follows(&vars.mqtt),
    {
        let parsed: Option<Vec<String>> = match &vars.targets_json {
            Some(s) => parse_string_array(s.as_str()),
            None => None,
        };
        let ghost given = parsed;
        proof {
            if given is Some {
                assert forall|i: int| 0 <= i < given->0@.len() implies #[trigger] given->0@[i]@
                    == crate::text::texts(given->0@)[i] by {}
            }
        }
        Config {
            interval_secs: number_or_default(&vars.interval_secs, u64::MAX as u128, 30) as u64,
            timeout_ms: number_or_default(&vars.request_timeout_ms, u64::MAX as u128, 5000) as u64,
            degraded_latency_ms: number_or_default(&vars.degraded_latency_ms, u128::MAX, 750),
            window_size: number_or_default(&vars.window_size, usize::MAX as u128, 10) as usize,
            targets: targets_or_default(parsed),
            links: links_or_default(links),
            mqtt: MqttConfig::from_env(&vars.mqtt),
            burst_count: number_or_default(&vars.burst_count, usize::MAX as u128, 2) as usize,
            burst_interval_ms: number_or_default(
                &vars.burst_interval_ms,
                u64::MAX as u128,
                5000,
            ) as u64,
        }
    }
}

/// The port that the service listens on.
pub fn listen_port(var: &Option<String>) -> (r: u16)
    ensures
        r as nat == crate::text::number_or(crate::text::opt_text(*var), u16::MAX as nat, 8000),
{
    number_or_default(var, u16::MAX as u128, 8000) as u16
}

/// A list of targets that could be read is probed as it is: as many targets, with the same text at
/// every place. Otherwise the two default targets are.
pub proof fn law_configured_targets_are_kept(parsed: Option<Seq<Seq<char>>>)
    ensures
        parsed matches Some(given) ==> {
            &&& targets_or(parsed).len() == given.len()
            &&& forall|i: int| 0 <= i < given.len() ==> #[trigger] targets_or(parsed)[i] == given[i]
        },
        parsed is None ==> targets_or(parsed).len() == 2 && targets_or(parsed)[0]
            == "http://www.google.com/generate_204"@ && targets_or(parsed)[1]
            == "http://cp.cloudflare.com/generate_204"@,
{
}

/// A setting is read as a list of texts as the parser reads it, and a missing one gives none.
pub proof fn law_setting_is_read_by_the_parser(var: Option<Seq<char>>)
    ensures
        var is Some ==> parsed_setting(var) == json_string_array(var->0),
        var is None ==> parsed_setting(var) is None,
{
}

/// A list of strings stands for their texts, one for one.
pub proof fn law_list_stands_for_its_texts(v: Option<Vec<String>>)
    ensures
        v is None <==> opt_texts(v) is None,
        v matches Some(l) ==> {
            &&& opt_texts(v)->0.len() == l@.len()
            &&& forall|i: int| 0 <= i < l@.len() ==> #[trigger] opt_texts(v)->0[i] == l@[i]@
        },
{
}

/// The default link is named `default`, goes through no proxy and has neither weights nor a baseline
/// of its own.
pub proof fn law_default_link_is_plain(link: &LinkConfig)
    requires
        link.is_default(),
    ensures
        link.name@ == "default"@,
        link.socks5 is None,
        link.weights is None,
        link.latency_baseline_ms is None,
{
}

/// The number that a setting is read as, where it is there and at most `max`.
pub open spec fn read_number(var: Option<String>, max: nat) -> Option<nat> {
    match var {
        Some(s) => crate::text::unsigned_value(s@, max),
        None => None,
    }
}

/// Each number of the configuration is the one that its own setting is read as, up to the largest of
/// its type, and has its default otherwise. No setting has an influence on another.
pub proof fn law_config_carries_the_settings(cfg: &Config, vars: &EnvVars)
    requires
        cfg.follows(vars),
    ensures
        ({
            let n = read_number(vars.interval_secs, u64::MAX as nat);
            (n is Some ==> cfg.interval_secs == n->0) && (n is None ==> cfg.interval_secs == 30)
        }),
        ({
            let n = read_number(vars.request_timeout_ms, u64::MAX as nat);
            (n is Some ==> cfg.timeout_ms == n->0) && (n is None ==> cfg.timeout_ms == 5000)
        }),
        ({
            let n = read_number(vars.degraded_latency_ms, u128::MAX as nat);
            (n is Some ==> cfg.degraded_latency_ms == n->0) && (n is None
                ==> cfg.degraded_latency_ms == 750)
        }),
        ({
            let n = read_number(vars.window_size, usize::MAX as nat);
            (n is Some ==> cfg.window_size == n->0) && (n is None ==> cfg.window_size == 10)
        }),
        ({
            let n = read_number(vars.burst_count, usize::MAX as nat);
            (n is Some ==> cfg.burst_count == n->0) && (n is None ==> cfg.burst_count == 2)
        }),
        ({
            let n = read_number(vars.burst_interval_ms, u64::MAX as nat);
            (n is Some ==> cfg.burst_interval_ms == n->0) && (n is None ==> cfg.burst_interval_ms
                == 5000)
        }),
        cfg.mqtt is Some <==> vars.mqtt.host is Some,
        vars.targets_json is Some && json_string_array(vars.targets_json->0@) is Some ==> {
            let given = json_string_array(vars.targets_json->0@)->0;
            &&& cfg.targets@.len() == given.len()
            &&& forall|i: int| 0 <= i < given.len() ==> #[trigger] cfg.targets@[i]@ == given[i]
        },
{
    assert forall|i: int| 0 <= i < cfg.targets@.len() implies #[trigger] cfg.targets@[i]@
        == crate::text::texts(cfg.targets@)[i] by {}
    assert(crate::text::texts(cfg.targets@).len() == cfg.targets@.len());
}

} // verus!
