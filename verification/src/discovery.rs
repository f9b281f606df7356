//! The documents by which a home automation hub discovers a link's sensors.

use crate::mqtt::{make_availability_topic, make_state_topic, MqttConfig, Qos};
use crate::text::join;
use vstd::prelude::*;

verus! {

/// A sensor as the hub gets to know it.
pub struct SensorView {
    pub config_topic: Seq<char>,
    pub name: Seq<char>,
    pub unique_id: Seq<char>,
    pub state_topic: Seq<char>,
    pub value_template: Seq<char>,
    pub availability_topic: Seq<char>,
    pub attributes_topic: Option<Seq<char>>,
    pub unit: Option<Seq<char>>,
}

pub open spec fn status_id(link: Seq<char>) -> Seq<char> {
    "internet_health_"@ + link + "_status"@
}

pub open spec fn score_id(link: Seq<char>) -> Seq<char> {
    "internet_health_"@ + link + "_score"@
}

/// Where the hub looks for the document of a sensor.
pub open spec fn config_topic(unique_id: Seq<char>) -> Seq<char> {
    "homeassistant/sensor/"@ + unique_id + "/config"@
}

/// The sensor that shows a link's status, with the rest of its state as attributes.
pub open spec fn status_sensor(base: Seq<char>, link: Seq<char>) -> SensorView {
    SensorView {
        config_topic: config_topic(status_id(link)),
        name: "Internet "@ + link + " Status"@,
        unique_id: status_id(link),
        state_topic: crate::mqtt::state_topic(base, link),
        value_template: "{{ value_json.status }}"@,
        availability_topic: crate::mqtt::availability_topic(base),
        attributes_topic: Some(crate::mqtt::state_topic(base, link)),
        unit: None,
    }
}

/// The sensor that shows a link's score.
pub open spec fn score_sensor(base: Seq<char>, link: Seq<char>) -> SensorView {
    SensorView {
        config_topic: config_topic(score_id(link)),
        name: "Internet "@ + link + " Score"@,
        unique_id: score_id(link),
        state_topic: crate::mqtt::state_topic(base, link),
        value_template: "{{ value_json.score }}"@,
        availability_topic: crate::mqtt::availability_topic(base),
        attributes_topic: None,
        unit: Some(""@),
    }
}

/// The one member that an optional text makes.
pub open spec fn optional_member(key: Seq<char>, value: Option<Seq<char>>) -> Seq<
    (Seq<char>, Seq<char>),
> {
    match value {
        Some(v) => seq![(key, v)],
        None => Seq::empty(),
    }
}

impl SensorView {
    /// The text members of the sensor's document.
    pub open spec fn members(self) -> Seq<(Seq<char>, Seq<char>)> {
        seq![
            ("name"@, self.name),
            ("uniq_id"@, self.unique_id),
            ("stat_t"@, self.state_topic),
            ("val_tpl"@, self.value_template),
            ("avty_t"@, self.availability_topic),
        ] + optional_member("json_attr_t"@, self.attributes_topic) + optional_member(
            "unit_of_meas"@,
            self.unit,
        )
    }

    /// The bytes of the sensor's document, where the encoder gives any.
    pub open spec fn document(self) -> Option<Seq<u8>> {
        json_object(
            self.members(),
            "device"@,
            device_members(),
            "identifiers"@,
            seq!["internet_health_checker"@],
        )
    }
}

/// What every document says of the device that the sensors belong to.
pub open spec fn device_members() -> Seq<(Seq<char>, Seq<char>)> {
    seq![
        ("name"@, "Internet Health Checker"@),
        ("manufacturer"@, "Gnattu"@),
        ("model"@, "internet-health-checker"@),
    ]
}

pub open spec fn pair_texts(v: Seq<(String, String)>) -> Seq<(Seq<char>, Seq<char>)> {
    Seq::new(v.len(), |i: int| (v[i].0@, v[i].1@))
}

pub open spec fn opt_bytes(v: Option<Vec<u8>>) -> Option<Seq<u8>> {
    match v {
        Some(b) => Some(b@),
        None => None,
    }
}

/// The JSON encoding of an object with text members, which also has under `section` an object
/// with text members, which in turn has under `list` an array of texts. Of two members with the
/// same key the later one counts, and the section and the list come last.
pub uninterp spec fn json_object(
    members: Seq<(Seq<char>, Seq<char>)>,
    section: Seq<char>,
    section_members: Seq<(Seq<char>, Seq<char>)>,
    list: Seq<char>,
    items: Seq<Seq<char>>,
) -> Option<Seq<u8>>;

/// Calls `serde_json::to_vec` on a `serde_json::Map` that holds the members. Claimed: the bytes,
/// or the refusal to give any, depend on the texts alone. How JSON writes them down is left to
/// the encoder.
#[verifier::external_body]
fn encode_object(
    members: &Vec<(String, String)>,
    section: &str,
    section_members: &Vec<(String, String)>,
    list: &str,
    items: &Vec<String>,
) -> (r: Option<Vec<u8>>)
    ensures
        opt_bytes(r) == json_object(
            pair_texts(members@),
            section@,
            pair_texts(section_members@),
            list@,
            crate::text::texts(items@),
        ),
{
    let object = |pairs: &Vec<(String, String)>| -> serde_json::Map<String, serde_json::Value> {
        pairs.iter().map(|(k, v)| (k.clone(), serde_json::Value::from(v.as_str()))).collect()
    };
    let mut inner = object(section_members);
    inner.insert(list.to_string(), serde_json::Value::from(items.clone()));
    let mut outer = object(members);
    outer.insert(section.to_string(), serde_json::Value::Object(inner));
    serde_json::to_vec(&outer).ok()
}

/// What is published for an encoded document: its bytes, or an empty object where it could not
/// be encoded.
pub open spec fn published(encoded: Option<Seq<u8>>) -> Seq<u8> {
    match encoded {
        Some(b) => b,
        None => seq![0x7bu8, 0x7du8],
    }
}

/// The bytes to publish for an encoded document.
pub fn payload_or_empty(encoded: Option<Vec<u8>>) -> (r: Vec<u8>)
    ensures
        r@ == published(opt_bytes(encoded)),
{
    match encoded {
        Some(b) => b,
        None => {
            let mut empty: Vec<u8> = Vec::new();
            empty.push(0x7b);
            empty.push(0x7d);
            empty
        },
    }
}

#[derive(Debug, Clone)]
pub struct SensorConfig {
    pub config_topic: String,
    pub name: String,
    pub unique_id: String,
    pub state_topic: String,
    pub value_template: String,
    pub availability_topic: String,
    pub attributes_topic: Option<String>,
    pub unit: Option<String>,
}

impl View for SensorConfig {
    type V = SensorView;

    open spec fn view(&self) -> SensorView {
        SensorView {
            config_topic: self.config_topic@,
            name: self.name@,
            unique_id: self.unique_id@,
            state_topic: self.state_topic@,
            value_template: self.value_template@,
            availability_topic: self.availability_topic@,
            attributes_topic: crate::text::opt_text(self.attributes_topic),
            unit: crate::text::opt_text(self.unit),
        }
    }
}

fn pair(key: &str, value: &str) -> (r: (String, String))
    ensures
        r.0@ == key@,
        r.1@ == value@,
{
    (key.to_string(), value.to_string())
}

fn make_config_topic(unique_id: &str) -> (r: String)
    ensures
        r@ == config_topic(unique_id@),
{
    join("homeassistant/sensor/", unique_id, "/config")
}

impl SensorConfig {
    /// The sensor that shows a link's status.
    pub fn for_status(base_topic: &str, link: &str) -> (r: Self)
        ensures
            r@ == status_sensor(base_topic@, link@),
            r.name@ == "Internet "@ + link@ + " Status"@,
            r.unique_id@ == "internet_health_"@ + link@ + "_status"@,
            r.config_topic@ == "homeassistant/sensor/"@ + r.unique_id@ + "/config"@,
            r.state_topic@ == base_topic@ + "/"@ + link@ + "/state"@,
            r.availability_topic@ == base_topic@ + "/availability"@,
            r.attributes_topic is Some && r.attributes_topic->0@ == r.state_topic@,
            r.value_template@ == "{{ value_json.status }}"@,
            r.unit is None,
    {
        let unique_id: String = join("internet_health_", link, "_status");
        SensorConfig {
            config_topic: make_config_topic(unique_id.as_str()),
            name: join("Internet ", link, " Status"),
            unique_id,
            state_topic: make_state_topic(base_topic, link),
            value_template: "{{ value_json.status }}".to_string(),
            availability_topic: make_availability_topic(base_topic),
            attributes_topic: Some(make_state_topic(base_topic, link)),
            unit: None,
        }
    }

    /// The sensor that shows a link's score.
    pub fn for_score(base_topic: &str, link: &str) -> (r: Self)
        ensures
            r@ == score_sensor(base_topic@, link@),
            r.name@ == "Internet "@ + link@ + " Score"@,
            r.unique_id@ == "internet_health_"@ + link@ + "_score"@,
            r.config_topic@ == "homeassistant/sensor/"@ + r.unique_id@ + "/config"@,
            r.state_topic@ == base_topic@ + "/"@ + link@ + "/state"@,
            r.availability_topic@ == base_topic@ + "/availability"@,
            r.attributes_topic is None,
            r.value_template@ == "{{ value_json.score }}"@,
            r.unit is Some && r.unit->0@ == ""@,
    {
        let unique_id: String = join("internet_health_", link, "_score");
        SensorConfig {
            config_topic: make_config_topic(unique_id.as_str()),
            name: join("Internet ", link, " Score"),
            unique_id,
            state_topic: make_state_topic(base_topic, link),
            value_template: "{{ value_json.score }}".to_string(),
            availability_topic: make_availability_topic(base_topic),
            attributes_topic: None,
            unit: Some("".to_string()),
        }
    }

    /// The text members of the sensor's document, key and value.
    pub fn members(&self) -> (r: Vec<(String, String)>)
        ensures
            pair_texts(r@) == self@.members(),
    {
        let mut r: Vec<(String, String)> = Vec::new();
        r.push(pair("name", self.name.as_str()));
        r.push(pair("uniq_id", self.unique_id.as_str()));
        r.push(pair("stat_t", self.state_topic.as_str()));
        r.push(pair("val_tpl", self.value_template.as_str()));
        r.push(pair("avty_t", self.availability_topic.as_str()));
        if let Some(t) = &self.attributes_topic {
            r.push(pair("json_attr_t", t.as_str()));
        }
        if let Some(u) = &self.unit {
            r.push(pair("unit_of_meas", u.as_str()));
        }
        assert(pair_texts(r@) =~= self@.members());
        r
    }

    /// The bytes that are published as the sensor's document.
    pub fn payload(&self) -> (r: Vec<u8>)
        ensures
            r@ == published(self@.document()),
    {
        let members: Vec<(String, String)> = self.members();
        let mut device: Vec<(String, String)> = Vec::new();
        device.push(pair("name", "Internet Health Checker"));
        device.push(pair("manufacturer", "Gnattu"));
        device.push(pair("model", "internet-health-checker"));
        let mut ids: Vec<String> = Vec::new();
        ids.push("internet_health_checker".to_string());
        assert(pair_texts(device@) =~= device_members());
        assert(crate::text::texts(ids@) =~= seq!["internet_health_checker"@]);
        payload_or_empty(encode_object(&members, "device", &device, "identifiers", &ids))
    }
}

/// A document and the topic that it goes to.
#[derive(Debug, Clone)]
pub struct Announcement {
    pub topic: String,
    pub payload: Vec<u8>,
    pub qos: Qos,
    pub retain: bool,
}

impl Announcement {
    /// This makes the sensor known, delivered as the configuration asks.
    pub open spec fn announces(&self, cfg: &MqttConfig, sensor: SensorView) -> bool {
        &&& self.topic@ == sensor.config_topic
        &&& self.payload@ == published(sensor.document())
        &&& self.qos == cfg.qos
        &&& self.retain == cfg.retain
    }
}

fn announce(cfg: &MqttConfig, sensor: SensorConfig) -> (r: Announcement)
    ensures
        r.announces(cfg, sensor@),
{
    let payload: Vec<u8> = sensor.payload();
    Announcement { topic: sensor.config_topic, payload, qos: cfg.qos, retain: cfg.retain }
}

/// What makes a link's two sensors known, in the order of publishing: nothing where discovery is
/// switched off.
pub fn announcements_for_link(cfg: &MqttConfig, link: &str) -> (r: Vec<Announcement>)
    ensures
        !cfg.discovery ==> r@.len() == 0,
        cfg.discovery ==> {
            &&& r@.len() == 2
            &&& r@[0].announces(cfg, status_sensor(cfg.base_topic@, link@))
            &&& r@[1].announces(cfg, score_sensor(cfg.base_topic@, link@))
        },
{
    let mut r: Vec<Announcement> = Vec::new();
    if cfg.discovery {
        r.push(announce(cfg, SensorConfig::for_status(cfg.base_topic.as_str(), link)));
        r.push(announce(cfg, SensorConfig::for_score(cfg.base_topic.as_str(), link)));
    }
    r
}

/// A sensor listens where the state of its link is published, and to the topic that says whether
/// the service is online.
pub proof fn law_sensors_listen_where_the_state_goes(base: Seq<char>, link: Seq<char>)
    ensures
        status_sensor(base, link).state_topic == crate::mqtt::state_topic(base, link),
        status_sensor(base, link).attributes_topic == Some(crate::mqtt::state_topic(base, link)),
        status_sensor(base, link).availability_topic == crate::mqtt::availability_topic(base),
        score_sensor(base, link).state_topic == crate::mqtt::state_topic(base, link),
        score_sensor(base, link).availability_topic == crate::mqtt::availability_topic(base),
{
}

/// Every document goes to a topic under `homeassistant/sensor/`.
pub proof fn law_documents_go_to_the_hub(base: Seq<char>, link: Seq<char>)
    ensures
        "homeassistant/sensor/"@.is_prefix_of(status_sensor(base, link).config_topic),
        "homeassistant/sensor/"@.is_prefix_of(score_sensor(base, link).config_topic),
{
}

/// No two sensors share an identifier or the topic of their document, neither those of one link
/// nor those of different links.
pub proof fn law_sensors_have_their_own_ids(a: Seq<char>, b: Seq<char>)
    ensures
        status_id(a) != score_id(b),
        config_topic(status_id(a)) != config_topic(score_id(b)),
        a != b ==> status_id(a) != status_id(b),
        a != b ==> score_id(a) != score_id(b),
        a != b ==> config_topic(status_id(a)) != config_topic(status_id(b)),
        a != b ==> config_topic(score_id(a)) != config_topic(score_id(b)),
{
    reveal_strlit("_status");
    reveal_strlit("_score");
    assert(status_id(a).last() == 's');
    assert(score_id(b).last() == 'e');
    let front = "internet_health_"@;
    crate::text::lemma_between(front, a, b, "_status"@);
    crate::text::lemma_between(front, a, b, "_score"@);
    let topic = "homeassistant/sensor/"@;
    crate::text::lemma_between(topic, status_id(a), score_id(b), "/config"@);
    crate::text::lemma_between(topic, status_id(a), status_id(b), "/config"@);
    crate::text::lemma_between(topic, score_id(a), score_id(b), "/config"@);
}

/// A document says its sensor's fields under their keys, each once and letter for letter: the five
/// that every sensor has, then the topic of the attributes and the unit where there are any.
pub proof fn law_document_says_every_field(s: SensorView)
    ensures
        ({
            let m = s.members();
            let extra: int = if s.attributes_topic is Some {
                1
            } else {
                0
            };
            let unit: int = if s.unit is Some {
                1
            } else {
                0
            };
            &&& m.len() == 5 + extra + unit
            &&& m[0] == ("name"@, s.name)
            &&& m[1] == ("uniq_id"@, s.unique_id)
            &&& m[2] == ("stat_t"@, s.state_topic)
            &&& m[3] == ("val_tpl"@, s.value_template)
            &&& m[4] == ("avty_t"@, s.availability_topic)
            &&& s.attributes_topic is Some ==> m[5] == ("json_attr_t"@, s.attributes_topic->0)
            &&& s.unit is Some ==> m[5 + extra] == ("unit_of_meas"@, s.unit->0)
        }),
{
}

/// What is encoded is the sensor's members and one and the same device, whatever the sensor.
pub proof fn law_document_encodes_members_and_device(s: SensorView)
    ensures
        s.document() == json_object(
            s.members(),
            "device"@,
            seq![
                ("name"@, "Internet Health Checker"@),
                ("manufacturer"@, "Gnattu"@),
                ("model"@, "internet-health-checker"@),
            ],
            "identifiers"@,
            seq!["internet_health_checker"@],
        ),
{
    assert(device_members() =~= seq![
        ("name"@, "Internet Health Checker"@),
        ("manufacturer"@, "Gnattu"@),
        ("model"@, "internet-health-checker"@),
    ]);
}

/// The name, the identifier and the topic of a sensor hold the name of its link letter for letter.
pub proof fn law_sensors_are_named_after_their_link(base: Seq<char>, link: Seq<char>)
    ensures
        ({
            let s = status_sensor(base, link);
            let c = score_sensor(base, link);
            &&& s.name.subrange(9, 9 + link.len() as int) == link
            &&& c.name.subrange(9, 9 + link.len() as int) == link
            &&& s.name.len() == 16 + link.len()
            &&& c.name.len() == 15 + link.len()
            &&& s.unique_id.subrange(16, 16 + link.len() as int) == link
            &&& c.unique_id.subrange(16, 16 + link.len() as int) == link
            &&& s.unique_id.len() == 23 + link.len()
            &&& c.unique_id.len() == 22 + link.len()
            &&& s.config_topic.subrange(21, 21 + s.unique_id.len() as int) == s.unique_id
            &&& c.config_topic.subrange(21, 21 + c.unique_id.len() as int) == c.unique_id
            &&& s.config_topic.len() == 28 + s.unique_id.len()
            &&& c.config_topic.len() == 28 + c.unique_id.len()
            &&& s.value_template == "{{ value_json.status }}"@
            &&& c.value_template == "{{ value_json.score }}"@
            &&& s.unit is None
            &&& c.unit == Some(""@)
            &&& c.attributes_topic is None
        }),
{
    reveal_strlit("Internet ");
    reveal_strlit(" Status");
    reveal_strlit(" Score");
    reveal_strlit("internet_health_");
    reveal_strlit("_status");
    reveal_strlit("_score");
    reveal_strlit("homeassistant/sensor/");
    reveal_strlit("/config");
    let s = status_sensor(base, link);
    let c = score_sensor(base, link);
    assert(s.name.subrange(9, 9 + link.len() as int) =~= link);
    assert(c.name.subrange(9, 9 + link.len() as int) =~= link);
    assert(s.unique_id.subrange(16, 16 + link.len() as int) =~= link);
    assert(c.unique_id.subrange(16, 16 + link.len() as int) =~= link);
    assert(s.config_topic.subrange(21, 21 + s.unique_id.len() as int) =~= s.unique_id);
    assert(c.config_topic.subrange(21, 21 + c.unique_id.len() as int) =~= c.unique_id);
}

/// What could be encoded is published byte for byte, and otherwise the empty object is.
pub proof fn law_encoded_bytes_are_published(encoded: Option<Seq<u8>>)
    ensures
        encoded is Some ==> published(encoded) == encoded->0,
        encoded is None ==> published(encoded).len() == 2 && published(encoded)[0] == 123
            && published(encoded)[1] == 125,
{
}

/// An announcement goes to the topic of its sensor, with its document and the configured delivery.
pub proof fn law_announcement_carries_the_document(
    a: &Announcement,
    cfg: &MqttConfig,
    sensor: SensorView,
)
    requires
        a.announces(cfg, sensor),
    ensures
        a.topic@ == sensor.config_topic,
        sensor.document() is Some ==> a.payload@ == sensor.document()->0,
        a.qos == cfg.qos,
        a.retain == cfg.retain,
{
}

/// A sensor, a list of pairs and encoded bytes stand for what they hold, one for one.
pub proof fn law_views_leave_nothing_out(
    s: &SensorConfig,
    v: Seq<(String, String)>,
    b: Option<Vec<u8>>,
)
    ensures
        s@.config_topic == s.config_topic@,
        s@.name == s.name@,
        s@.unique_id == s.unique_id@,
        s@.state_topic == s.state_topic@,
        s@.value_template == s.value_template@,
        s@.availability_topic == s.availability_topic@,
        s@.attributes_topic is Some <==> s.attributes_topic is Some,
        s.attributes_topic is Some ==> s@.attributes_topic->0 == s.attributes_topic->0@,
        s@.unit is Some <==> s.unit is Some,
        s.unit is Some ==> s@.unit->0 == s.unit->0@,
        pair_texts(v).len() == v.len(),
        forall|i: int| 0 <= i < v.len() ==> #[trigger] pair_texts(v)[i] == (v[i].0@, v[i].1@),
        b is None <==> opt_bytes(b) is None,
        b is Some ==> opt_bytes(b)->0 == b->0@,
{
}

} // verus!
