//! What is told to an MQTT broker: the session, the topics and the discovery documents.

use crate::text::{copy_text, flag_or, join, number_or_default};
use rand::distr::Alphanumeric;
use rand::Rng;
use vstd::prelude::*;

verus! {

/// The delivery guarantee of a message.
#[derive(Debug, Clone, Copy, PartialEq, Eq, Structural)]
pub enum Qos {
    AtMostOnce,
    AtLeastOnce,
    ExactlyOnce,
}

/// The settings of the broker as they were given, each one where it was given at all.
#[derive(Debug, Clone)]
pub struct MqttVars {
    pub host: Option<String>,
    pub port: Option<String>,
    pub username: Option<String>,
    pub password: Option<String>,
    pub base_topic: Option<String>,
    pub discovery: Option<String>,
    pub qos: Option<String>,
    pub retain: Option<String>,
}

#[derive(Debug, Clone)]
pub struct MqttConfig {
    pub enabled: bool,
    pub host: String,
    pub port: u16,
    pub username: Option<String>,
    pub password: Option<String>,
    pub base_topic: String,
    pub discovery: bool,
    pub qos: Qos,
    pub retain: bool,
}

/// The guarantee that a level stands for.
pub open spec fn qos_of(level: nat) -> Qos {
    if level == 2 {
        Qos::ExactlyOnce
    } else if level == 1 {
        Qos::AtLeastOnce
    } else {
        Qos::AtMostOnce
    }
}

/// The topic under which everything is published, where none was given.
pub open spec fn default_base_topic() -> Seq<char> {
    "home/internet_health"@
}

pub open spec fn text_or(var: Option<Seq<char>>, default: Seq<char>) -> Seq<char> {
    match var {
        Some(s) => s,
        None => default,
    }
}

impl MqttConfig {
    /// This is the configuration that the settings ask for.
    pub open spec fn follows(&self, vars: &MqttVars) -> bool {
        &&& self.enabled
        &&& Some(self.host@) == crate::text::opt_text(vars.host)
        &&& self.port as nat == crate::text::number_or(
            crate::text::opt_text(vars.port),
            u16::MAX as nat,
            1883,
        )
        &&& crate::text::opt_text(self.username) == crate::text::opt_text(vars.username)
        &&& crate::text::opt_text(self.password) == crate::text::opt_text(vars.password)
        &&& self.base_topic@ == text_or(
            crate::text::opt_text(vars.base_topic),
            default_base_topic(),
        )
        &&& self.discovery == crate::text::switch_or(crate::text::opt_text(vars.discovery), true)
        &&& self.qos == qos_of(
            crate::text::number_or(crate::text::opt_text(vars.qos), u8::MAX as nat, 1),
        )
        &&& self.retain == crate::text::switch_or(crate::text::opt_text(vars.retain), true)
    }

    /// The broker's configuration. There is one exactly when a host was given.
    pub fn from_env(vars: &MqttVars) -> (r: Option<Self>)
        ensures
            r is Some <==> vars.host is Some,
            r is Some ==> r->0.follows(vars),
    {
        let host: String = match &vars.host {
            Some(h) => h.clone(),
            None => {
                return None;
            },
        };
        let level: u128 = number_or_default(&vars.qos, u8::MAX as u128, 1);
        let qos: Qos = if level == 2 {
            Qos::ExactlyOnce
        } else if level == 1 {
            Qos::AtLeastOnce
        } else {
            Qos::AtMostOnce
        };
        let base_topic: String = match &vars.base_topic {
            Some(t) => t.clone(),
            None => "home/internet_health".to_string(),
        };
        Some(
            MqttConfig {
                enabled: true,
                host,
                port: number_or_default(&vars.port, u16::MAX as u128, 1883) as u16,
                username: copy_text(&vars.username),
                password: copy_text(&vars.password),
                base_topic,
                discovery: flag_or(&vars.discovery, true),
                qos,
                retain: flag_or(&vars.retain, true),
            },
        )
    }
}

/// A message that carries a text.
#[derive(Debug, Clone)]
pub struct Message {
    pub topic: String,
    pub payload: String,
    pub qos: Qos,
    pub retain: bool,
}

impl Message {
    /// This is the message with this topic and text, delivered as the configuration asks.
    pub open spec fn says(&self, cfg: &MqttConfig, topic: Seq<char>, payload: Seq<char>) -> bool {
        &&& self.topic@ == topic
        &&& self.payload@ == payload
        &&& self.qos == cfg.qos
        &&& self.retain == cfg.retain
    }
}

/// What a session with the broker starts from.
#[derive(Debug, Clone)]
pub struct MqttSession {
    pub client_id: String,
    pub host: String,
    pub port: u16,
    pub credentials: Option<(String, String)>,
    pub keep_alive_secs: u64,
    /// How many messages may wait to be sent.
    pub request_capacity: usize,
    /// What the broker publishes when the connection is lost.
    pub will: Message,
    /// What is published first.
    pub birth: Message,
}

/// Where it is published whether the service is online.
pub open spec fn availability_topic(base: Seq<char>) -> Seq<char> {
    base + "/availability"@
}

/// Where the state of a link is published.
pub open spec fn state_topic(base: Seq<char>, link: Seq<char>) -> Seq<char> {
    base + "/"@ + link + "/state"@
}

/// Where the recommended link is published.
pub open spec fn recommended_topic(base: Seq<char>) -> Seq<char> {
    base + "/recommended"@
}

pub fn make_availability_topic(base: &str) -> (r: String)
    ensures
        r@ == availability_topic(base@),
        r@ == base@ + "/availability"@,
{
    base.to_string().concat("/availability")
}

pub fn make_state_topic(base: &str, link: &str) -> (r: String)
    ensures
        r@ == state_topic(base@, link@),
        r@ == base@ + "/"@ + link@ + "/state"@,
{
    join(base, "/", link).concat("/state")
}

pub fn make_recommended_topic(base: &str) -> (r: String)
    ensures
        r@ == recommended_topic(base@),
        r@ == base@ + "/recommended"@,
{
    base.to_string().concat("/recommended")
}

/// A message with the delivery that the configuration asks for.
pub fn make_message(cfg: &MqttConfig, topic: String, payload: String) -> (r: Message)
    ensures
        r.says(cfg, topic@, payload@),
        r.topic == topic,
        r.payload == payload,
        r.qos == cfg.qos,
        r.retain == cfg.retain,
{
    Message { topic, payload, qos: cfg.qos, retain: cfg.retain }
}

/// The start of a session of this client with the configured broker: credentials only where both parts are given, and one topic that says
/// `online` from the first message on and `offline` once the connection is lost.
pub fn make_session(cfg: &MqttConfig, client_id: &str) -> (r: MqttSession)
    ensures
        r.client_id@ == client_id@,
        r.host@ == cfg.host@,
        r.port == cfg.port,
        r.request_capacity == 10,
        r.credentials is Some <==> cfg.username is Some && cfg.password is Some,
        r.credentials matches Some((u, p)) ==> u@ == cfg.username->0@ && p@ == cfg.password->0@,
        r.keep_alive_secs == 30,
        r.will.says(cfg, availability_topic(cfg.base_topic@), "offline"@),
        r.birth.says(cfg, availability_topic(cfg.base_topic@), "online"@),
        r.will.topic@ == cfg.base_topic@ + "/availability"@,
        r.birth.topic@ == cfg.base_topic@ + "/availability"@,
        r.will.payload@ == "offline"@,
        r.birth.payload@ == "online"@,
        r.will.qos == cfg.qos && r.will.retain == cfg.retain,
        r.birth.qos == cfg.qos && r.birth.retain == cfg.retain,
{
    let credentials: Option<(String, String)> = match (&cfg.username, &cfg.password) {
        (Some(u), Some(p)) => Some((u.clone(), p.clone())),
        _ => None,
    };
    MqttSession {
        client_id: client_id.to_string(),
        host: cfg.host.clone(),
        port: cfg.port,
        credentials,
        keep_alive_secs: 30,
        request_capacity: 10,
        will: make_message(
            cfg,
            make_availability_topic(cfg.base_topic.as_str()),
            "offline".to_string(),
        ),
        birth: make_message(
            cfg,
            make_availability_topic(cfg.base_topic.as_str()),
            "online".to_string(),
        ),
    }
}

/// How many random characters tell clients apart.
pub const SUFFIX_LEN: usize = 6;

pub open spec fn is_alphanumeric(c: char) -> bool {
    ||| 'A' <= c && c <= 'Z'
    ||| 'a' <= c && c <= 'z'
    ||| '0' <= c && c <= '9'
}

pub open spec fn is_client_suffix(s: Seq<char>) -> bool {
    &&& s.len() == SUFFIX_LEN
    &&& forall|i: int| 0 <= i < s.len() ==> is_alphanumeric(#[trigger] s[i])
}

pub open spec fn client_id_of(suffix: Seq<char>) -> Seq<char> {
    "internet-health-"@ + suffix
}

/// The client name with this suffix.
pub fn client_id(suffix: &str) -> (r: String)
    ensures
        r@ == client_id_of(suffix@),
        r@ == "internet-health-"@ + suffix@,
{
    "internet-health-".to_string().concat(suffix)
}

/// Samples `rand::distr::Alphanumeric` from `rand::rng()`. Claimed of every outcome: as many
/// characters as asked for, each an ASCII letter or digit. Which ones is left to chance. The
/// generator panics where the operating system refuses to seed it.
#[verifier::external_body]
fn random_alphanumeric(len: usize) -> (r: String)
    requires
        len <= isize::MAX,
    ensures
        r@.len() == len,
        forall|i: int| 0 <= i < len ==> is_alphanumeric(#[trigger] r@[i]),
{
    rand::rng().sample_iter(&Alphanumeric).take(len).map(char::from).collect()
}

/// The random source can draw this suffix.
pub closed spec fn can_be_drawn(suffix: Seq<char>) -> bool {
    exists|s: String| #[trigger]
        call_ensures(random_alphanumeric, (SUFFIX_LEN,), s) && s@ == suffix
}

/// A client name that other clients of the same broker are unlikely to have.
pub fn fresh_client_id() -> (r: String)
    ensures
        exists|suffix: Seq<char>|
            can_be_drawn(suffix) && is_client_suffix(suffix) && r@ == #[trigger] client_id_of(
                suffix,
            ),
{
    let suffix: String = random_alphanumeric(SUFFIX_LEN);
    assert(is_client_suffix(suffix@));
    client_id(suffix.as_str())
}

/// Links do not share the topic of their state, and no link's state goes to the topic of the
/// availability or of the recommendation.
pub proof fn law_topics_do_not_collide(base: Seq<char>, a: Seq<char>, b: Seq<char>)
    ensures
        a != b ==> state_topic(base, a) != state_topic(base, b),
        state_topic(base, a) != availability_topic(base),
        state_topic(base, a) != recommended_topic(base),
        availability_topic(base) != recommended_topic(base),
{
    crate::text::lemma_between(base + "/"@, a, b, "/state"@);
    reveal_strlit("/state");
    reveal_strlit("/availability");
    reveal_strlit("/recommended");
    assert(state_topic(base, a).last() == 'e');
    assert(availability_topic(base).last() == 'y');
    assert(recommended_topic(base).last() == 'd');
}

/// Where no base topic is given, the state of a link goes to
/// `home/internet_health/<link>/state`.
pub proof fn law_default_state_topic(cfg: &MqttConfig, vars: &MqttVars, link: Seq<char>)
    requires
        cfg.follows(vars),
        vars.base_topic is None,
    ensures
        state_topic(cfg.base_topic@, link) == "home/internet_health/"@ + link + "/state"@,
{
    reveal_strlit("home/internet_health/");
    reveal_strlit("home/internet_health");
    reveal_strlit("/");
    assert("home/internet_health"@ + "/"@ =~= "home/internet_health/"@);
}

/// The configuration of the broker carries what was given: the host, the credentials and the base
/// topic letter for letter, the port and the delivery level where they are read as numbers, and the
/// switches. What was not given has its default.
pub proof fn law_broker_config_carries_the_settings(cfg: &MqttConfig, vars: &MqttVars)
    requires
        cfg.follows(vars),
    ensures
        cfg.enabled,
        vars.host is Some && cfg.host@ == vars.host->0@,
        cfg.username is Some <==> vars.username is Some,
        cfg.username is Some ==> cfg.username->0@ == vars.username->0@,
        cfg.password is Some <==> vars.password is Some,
        cfg.password is Some ==> cfg.password->0@ == vars.password->0@,
        vars.base_topic is Some ==> cfg.base_topic@ == vars.base_topic->0@,
        vars.base_topic is None ==> cfg.base_topic@ == "home/internet_health"@,
        ({
            let read = if vars.port is Some {
                crate::text::unsigned_value(vars.port->0@, 65535)
            } else {
                None
            };
            &&& read is Some ==> cfg.port == read->0
            &&& read is None ==> cfg.port == 1883
        }),
        ({
            let read = if vars.qos is Some {
                crate::text::unsigned_value(vars.qos->0@, 255)
            } else {
                None
            };
            &&& cfg.qos == Qos::ExactlyOnce <==> read == Some(2nat)
            &&& cfg.qos == Qos::AtLeastOnce <==> read is None || read == Some(1nat)
            &&& cfg.qos == Qos::AtMostOnce <==> read is Some && read->0 != 1 && read->0 != 2
        }),
        vars.discovery is None ==> cfg.discovery,
        vars.discovery is Some ==> cfg.discovery == crate::text::is_truthy(vars.discovery->0@),
        vars.retain is None ==> cfg.retain,
        vars.retain is Some ==> cfg.retain == crate::text::is_truthy(vars.retain->0@),
{
}

/// Each topic is the base topic and a fixed end; that of a state has the name of the link between
/// two slashes before its end. Base and link stand in it letter for letter.
pub proof fn law_topics_hold_base_and_link(base: Seq<char>, link: Seq<char>)
    ensures
        state_topic(base, link).len() == base.len() + link.len() + 7,
        state_topic(base, link).subrange(0, base.len() as int) == base,
        state_topic(base, link)[base.len() as int] == '/',
        state_topic(base, link).subrange(
            base.len() as int + 1,
            (base.len() + 1 + link.len()) as int,
        ) == link,
        state_topic(base, link).skip((base.len() + 1 + link.len()) as int) == "/state"@,
        availability_topic(base).take(base.len() as int) == base,
        availability_topic(base).skip(base.len() as int) == "/availability"@,
        recommended_topic(base).take(base.len() as int) == base,
        recommended_topic(base).skip(base.len() as int) == "/recommended"@,
{
    reveal_strlit("/");
    reveal_strlit("/state");
    assert(state_topic(base, link).subrange(0, base.len() as int) =~= base);
    assert(state_topic(base, link).subrange(base.len() as int + 1, (base.len() + 1 + link.len()) as int)
        =~= link);
    assert(state_topic(base, link).skip((base.len() + 1 + link.len()) as int) =~= "/state"@);
    assert(availability_topic(base).take(base.len() as int) =~= base);
    assert(availability_topic(base).skip(base.len() as int) =~= "/availability"@);
    assert(recommended_topic(base).take(base.len() as int) =~= base);
    assert(recommended_topic(base).skip(base.len() as int) =~= "/recommended"@);
}

/// A message carries its topic and its text letter for letter, with the configured delivery.
pub proof fn law_message_carries_its_text(
    m: &Message,
    cfg: &MqttConfig,
    topic: Seq<char>,
    payload: Seq<char>,
)
    requires
        m.says(cfg, topic, payload),
    ensures
        m.topic@ == topic,
        m.payload@ == payload,
        m.qos == cfg.qos,
        m.retain == cfg.retain,
{
}

/// A client name is a fixed beginning and the suffix, so that different suffixes give different
/// names. A suffix that can be drawn has six characters, each an ASCII letter or digit.
pub proof fn law_client_names_differ_with_the_suffix(a: Seq<char>, b: Seq<char>)
    ensures
        a != b ==> client_id_of(a) != client_id_of(b),
        client_id_of(a).skip(client_id_of(a).len() - a.len()) == a,
        client_id_of(a).len() == 16 + a.len(),
        is_client_suffix(a) <==> a.len() == 6 && forall|i: int|
            0 <= i < a.len() ==> {
                let c = #[trigger] a[i];
                ||| '0' <= c && c <= '9'
                ||| 'A' <= c && c <= 'Z'
                ||| 'a' <= c && c <= 'z'
            },
{
    reveal_strlit("internet-health-");
    let x = client_id_of(a);
    let y = client_id_of(b);
    assert(x.skip(16) =~= a);
    assert(y.skip(16) =~= b);
}

/// A suffix that tells clients apart is made of six ASCII letters and digits, any of them at any
/// place.
pub proof fn law_suffix_is_six_letters_or_digits(s: Seq<char>)
    ensures
        is_client_suffix(s) <==> s.len() == 6 && forall|i: int|
            0 <= i < s.len() ==> {
                let c = #[trigger] s[i];
                ||| 'A' <= c && c <= 'Z'
                ||| 'a' <= c && c <= 'z'
                ||| '0' <= c && c <= '9'
            },
{
    if is_client_suffix(s) {
        assert forall|i: int| 0 <= i < s.len() implies is_alphanumeric(#[trigger] s[i]) by {}
    }
}

} // verus!
