//! The state of every link, and what is told of it.

use crate::config::{Config, LinkConfig};
use crate::latency::trim_history;
use crate::mqtt::{
    make_message, make_recommended_topic, make_state_topic, Message, MqttConfig, Qos,
};
use crate::score::{score_inputs, score_link, ScoreInputs};
use crate::status::InternetStatus;
use crate::window::{ProbeWindow, Ratio};
use vstd::prelude::*;

verus! {

/// A moment: seconds since the beginning of 1970 in UTC, and nanoseconds on top.
#[derive(Debug, Clone, Copy, PartialEq, Eq, Structural)]
pub struct Timestamp {
    pub secs: i64,
    pub nanos: u32,
}

/// The state of a link, seen abstractly.
pub struct LinkView {
    pub outcomes: Seq<crate::window::Outcome>,
    pub bound: nat,
    pub last_checked: Timestamp,
    pub last_p95: Option<u128>,
    pub score: u8,
    pub status: InternetStatus,
}

impl LinkView {
    /// A link before its first round.
    pub open spec fn fresh(window_size: nat, now: Timestamp) -> LinkView {
        LinkView {
            outcomes: Seq::empty(),
            bound: window_size,
            last_checked: now,
            last_p95: None,
            score: 0,
            status: InternetStatus::Failed,
        }
    }

    /// The score is on the scale, the status is the one that it stands for, and the window keeps
    /// to its bound.
    pub open spec fn wf(self) -> bool {
        &&& self.score <= crate::status::MAX_SCORE
        &&& self.status == crate::status::status_of(self.score)
        &&& self.bound > 0 ==> self.outcomes.len() <= self.bound
    }

    /// The state after a round with this outcome.
    pub open spec fn after_round(
        self,
        ok: bool,
        latency_ms: Option<u128>,
        now: Timestamp,
    ) -> LinkView {
        LinkView {
            outcomes: crate::window::pushed(self.outcomes, self.bound, (ok, latency_ms)),
            last_checked: now,
            ..self
        }
    }

    /// The state once a score has been worked out.
    pub open spec fn scored(self, percent: int, p95_ms: Option<u128>) -> LinkView {
        LinkView {
            last_p95: p95_ms,
            score: crate::status::score_of(percent),
            status: crate::status::status_of(crate::status::score_of(percent)),
            ..self
        }
    }
}

/// What a round of a link came to.
pub struct RoundRecord {
    pub ok: bool,
    pub latency_ms: Option<u128>,
    pub now: Timestamp,
    pub percent: int,
    pub p95_ms: Option<u128>,
}

impl LinkView {
    /// The state after some rounds, each of them recorded and scored.
    pub open spec fn after_rounds(self, rounds: Seq<RoundRecord>) -> LinkView
        decreases rounds.len(),
    {
        if rounds.len() == 0 {
            self
        } else {
            let r = rounds.last();
            self.after_rounds(rounds.drop_last()).after_round(r.ok, r.latency_ms, r.now).scored(
                r.percent,
                r.p95_ms,
            )
        }
    }
}

/// The outcomes of some rounds.
pub open spec fn outcomes_of(rounds: Seq<RoundRecord>) -> Seq<crate::window::Outcome> {
    Seq::new(rounds.len(), |i: int| (rounds[i].ok, rounds[i].latency_ms))
}

/// All links with their names, in the order in which they were first registered.
pub type TableView = Seq<(Seq<char>, LinkView)>;

pub open spec fn known(t: TableView, name: Seq<char>) -> bool {
    exists|i: int| 0 <= i < t.len() && (#[trigger] t[i]).0 == name
}

pub open spec fn place(t: TableView, name: Seq<char>) -> int {
    choose|i: int| 0 <= i < t.len() && (#[trigger] t[i]).0 == name
}

/// The state of the link with this name.
pub open spec fn state_of(t: TableView, name: Seq<char>) -> LinkView {
    t[place(t, name)].1
}

/// The table with this state for this name: in the place that the name has, or else at the end.
pub open spec fn with_state(t: TableView, name: Seq<char>, state: LinkView) -> TableView {
    if known(t, name) {
        t.update(place(t, name), (name, state))
    } else {
        t.push((name, state))
    }
}

/// No name occurs twice, and every state is well-formed.
pub open spec fn table_wf(t: TableView) -> bool {
    &&& forall|i: int, j: int|
        0 <= i < j < t.len() ==> (#[trigger] t[i]).0 != (#[trigger] t[j]).0
    &&& forall|i: int| 0 <= i < t.len() ==> (#[trigger] t[i]).1.wf()
}

#[derive(Debug)]
struct LinkState {
    window: ProbeWindow,
    last_checked: Timestamp,
    last_p95: Option<u128>,
    score: u8,
    status: InternetStatus,
}

impl View for LinkState {
    type V = LinkView;

    closed spec fn view(&self) -> LinkView {
        LinkView {
            outcomes: self.window@,
            bound: self.window.bound(),
            last_checked: self.last_checked,
            last_p95: self.last_p95,
            score: self.score,
            status: self.status,
        }
    }
}

#[derive(Debug)]
struct LinkEntry {
    name: String,
    state: LinkState,
}

#[derive(Debug)]
pub struct LinkTable {
    entries: Vec<LinkEntry>,
}

impl View for LinkTable {
    type V = TableView;

    closed spec fn view(&self) -> TableView {
        Seq::new(
            self.entries@.len(),
            |i: int| (self.entries@[i].name@, self.entries@[i].state@),
        )
    }
}

/// What is told of one link.
#[derive(Debug, Clone, Copy, PartialEq, Eq, Structural)]
pub struct StatusPayload {
    pub status: InternetStatus,
    pub score: u8,
    pub latency_ms: Option<u128>,
    pub p95_ms: Option<u128>,
    pub ok_ratio: Ratio,
    pub window: usize,
    pub last_checked: Timestamp,
}

/// What is told of a link in this state.
pub open spec fn payload_of(state: LinkView, window: usize) -> StatusPayload {
    StatusPayload {
        status: state.status,
        score: state.score,
        latency_ms: crate::window::latest_latency(state.outcomes),
        p95_ms: state.last_p95,
        ok_ratio: crate::window::availability_of(state.outcomes),
        window,
        last_checked: state.last_checked,
    }
}

impl LinkTable {
    /// A table without links.
    pub fn new() -> (r: Self)
        ensures
            r@ == Seq::<(Seq<char>, LinkView)>::empty(),
            table_wf(r@),
    {
        let r = LinkTable { entries: Vec::new() };
        assert(r@ =~= Seq::<(Seq<char>, LinkView)>::empty());
        r
    }

    fn find(&self, name: &String) -> (r: Option<usize>)
        ensures
            r is Some <==> known(self@, name@),
            r is Some ==> r->0 < self@.len() && self@[r->0 as int].0 == name@,
            r is Some && table_wf(self@) ==> r->0 == place(self@, name@),
    {
        for i in 0..self.entries.len()
            invariant
                forall|j: int| 0 <= j < i ==> (#[trigger] self@[j]).0 != name@,
        {
            if self.entries[i].name == *name {
                assert(self@[i as int].0 == name@);
                return Some(i);
            }
        }
        None
    }

    /// Makes a link known, without any rounds yet. A link of the same name starts over.
    pub fn register(&mut self, name: &String, window_size: usize, now: Timestamp)
        requires
            table_wf(old(self)@),
        ensures
            final(self)@ == with_state(
                old(self)@,
                name@,
                LinkView::fresh(window_size as nat, now),
            ),
            table_wf(final(self)@),
    {
        let state = LinkState {
            window: ProbeWindow::new(window_size),
            last_checked: now,
            last_p95: None,
            score: 0,
            status: InternetStatus::Failed,
        };
        let ghost fresh = state@;
        match self.find(name) {
            Some(i) => {
                let entry = &mut self.entries[i];
                entry.state = state;
            },
            None => {
                self.entries.push(LinkEntry { name: name.clone(), state });
            },
        }
        assert(self@ =~= with_state(old(self)@, name@, fresh));
    }

    /// Takes in a finished round of a link, and cuts its history of latencies down to the cap.
    /// Gives what the link's score is to be worked out from.
    pub fn record_round(
        &mut self,
        name: &String,
        ok: bool,
        latency_ms: Option<u128>,
        now: Timestamp,
        cfg: &Config,
        link: &LinkConfig,
        history: &mut Vec<u128>,
    ) -> (r: Option<ScoreInputs>)
        requires
            table_wf(old(self)@),
        ensures
            table_wf(final(self)@),
            r is Some <==> known(old(self)@, name@),
            r is None ==> final(self)@ == old(self)@ && final(history)@ == old(history)@,
            r is Some ==> {
                let state = state_of(old(self)@, name@).after_round(ok, latency_ms, now);
                &&& final(self)@ == with_state(old(self)@, name@, state)
                &&& final(history)@ == crate::latency::kept(old(history)@)
                &&& r->0.measure(cfg, link, state.outcomes, final(history)@)
            },
    {
        match self.find(name) {
            Some(i) => {
                let entry = &mut self.entries[i];
                entry.state.window.push(ok, latency_ms);
                entry.state.last_checked = now;
                trim_history(history);
                let inputs: ScoreInputs = score_inputs(
                    cfg,
                    link,
                    &self.entries[i].state.window,
                    history.as_slice(),
                );
                assert(self@ =~= with_state(
                    old(self)@,
                    name@,
                    state_of(old(self)@, name@).after_round(ok, latency_ms, now),
                ));
                Some(inputs)
            },
            None => None,
        }
    }

    /// Gives a link the score for a composite of `percent` percent, with the status that follows.
    /// Gives back whether the link is known.
    pub fn apply_score(&mut self, name: &String, percent: i64, inputs: &ScoreInputs) -> (r: bool)
        requires
            table_wf(old(self)@),
        ensures
            table_wf(final(self)@),
            r == known(old(self)@, name@),
            !r ==> final(self)@ == old(self)@,
            r ==> final(self)@ == with_state(
                old(self)@,
                name@,
                state_of(old(self)@, name@).scored(percent as int, inputs.p95_ms),
            ),
    {
        match self.find(name) {
            Some(i) => {
                let (score, status, p95_ms) = score_link(percent, inputs);
                let entry = &mut self.entries[i];
                entry.state.score = score;
                entry.state.status = status;
                entry.state.last_p95 = p95_ms;
                assert(self@ =~= with_state(
                    old(self)@,
                    name@,
                    state_of(old(self)@, name@).scored(percent as int, inputs.p95_ms),
                ));
                true
            },
            None => false,
        }
    }

    /// What is told of the link with this name: nothing where there is none.
    pub fn status_payload(&self, name: &String, window_size: usize) -> (r: Option<StatusPayload>)
        requires
            table_wf(self@),
        ensures
            r is Some <==> known(self@, name@),
            r is Some ==> r->0 == payload_of(state_of(self@, name@), window_size),
    {
        match self.find(name) {
            Some(i) => {
                let state = &self.entries[i].state;
                Some(
                    StatusPayload {
                        status: state.status,
                        score: state.score,
                        latency_ms: state.window.last_latency(),
                        p95_ms: state.last_p95,
                        ok_ratio: state.window.ok_ratio(),
                        window: window_size,
                        last_checked: state.last_checked,
                    },
                )
            },
            None => None,
        }
    }
}

/// A link as the scoreboard shows it, seen abstractly.
pub struct EntryView {
    pub name: Seq<char>,
    pub status: InternetStatus,
    pub score: u8,
    pub p95_ms: Option<u128>,
    pub ok_ratio: Ratio,
    pub last_checked: Timestamp,
}

/// What the scoreboard shows of a link.
pub open spec fn entry_of(link: (Seq<char>, LinkView)) -> EntryView {
    EntryView {
        name: link.0,
        status: link.1.status,
        score: link.1.score,
        p95_ms: link.1.last_p95,
        ok_ratio: crate::window::availability_of(link.1.outcomes),
        last_checked: link.1.last_checked,
    }
}

#[derive(Debug, Clone)]
pub struct ScoreboardEntry {
    pub name: String,
    pub status: InternetStatus,
    pub score: u8,
    pub p95_ms: Option<u128>,
    pub ok_ratio: Ratio,
    pub last_checked: Timestamp,
}

impl View for ScoreboardEntry {
    type V = EntryView;

    open spec fn view(&self) -> EntryView {
        EntryView {
            name: self.name@,
            status: self.status,
            score: self.score,
            p95_ms: self.p95_ms,
            ok_ratio: self.ok_ratio,
            last_checked: self.last_checked,
        }
    }
}

#[derive(Debug, Clone)]
pub struct ScoreboardPayload {
    pub links: Vec<ScoreboardEntry>,
    pub recommended: Option<String>,
}

/// The link at place `i` comes before the one at place `j`: it has the higher score, or the same
/// score and was registered earlier.
pub open spec fn outranks(t: TableView, i: int, j: int) -> bool {
    ||| t[i].1.score > t[j].1.score
    ||| t[i].1.score == t[j].1.score && i < j
}

/// `order` lists the places of all links of the table, the better before the worse.
pub open spec fn is_ranking(t: TableView, order: Seq<int>) -> bool {
    &&& order.len() == t.len()
    &&& forall|k: int| 0 <= k < order.len() ==> 0 <= #[trigger] order[k] < t.len()
    &&& forall|a: int, b: int|
        0 <= a < b < order.len() ==> outranks(t, #[trigger] order[a], #[trigger] order[b])
}

impl ScoreboardPayload {
    /// This is the scoreboard with the links in this order and the first of them recommended.
    pub open spec fn shows(&self, t: TableView, order: Seq<int>) -> bool {
        &&& self.links@.len() == order.len()
        &&& forall|k: int|
            0 <= k < order.len() ==> (#[trigger] self.links@[k])@ == entry_of(t[order[k]])
        &&& crate::text::opt_text(self.recommended) == if order.len() > 0 {
            Some(t[order[0]].0)
        } else {
            None
        }
    }
}

/// What is published after a round of a link.
#[derive(Debug, Clone)]
pub struct StateReport {
    /// Where the link's state goes.
    pub topic: String,
    pub payload: StatusPayload,
    pub qos: Qos,
    pub retain: bool,
    /// The recommendation.
    pub recommended: Message,
}

/// The link at this place has the highest score, and the latest registered of those that have.
pub open spec fn is_best(t: TableView, i: int) -> bool {
    &&& 0 <= i < t.len()
    &&& forall|j: int| 0 <= j < t.len() ==> (#[trigger] t[j]).1.score <= t[i].1.score
    &&& forall|j: int| i < j < t.len() ==> (#[trigger] t[j]).1.score < t[i].1.score
}

pub open spec fn places(order: Seq<usize>) -> Seq<int> {
    Seq::new(order.len(), |k: int| order[k] as int)
}

impl LinkTable {
    /// The places of all links, the better before the worse.
    fn ranking(&self) -> (r: Vec<usize>)
        ensures
            is_ranking(self@, places(r@)),
    {
        let mut order: Vec<usize> = Vec::new();
        let len: usize = self.entries.len();
        for i in 0..len
            invariant
                len == self@.len(),
                len == self.entries@.len(),
                order@.len() == i,
                forall|k: int| 0 <= k < i ==> #[trigger] order@[k] < i,
                forall|a: int, b: int|
                    0 <= a < b < i ==> outranks(
                        self@,
                        #[trigger] order@[a] as int,
                        #[trigger] order@[b] as int,
                    ),
        {
            let score: u8 = self.entries[i].state.score;
            let mut k: usize = i;
            while k > 0 && self.entries[order[k - 1]].state.score < score
                invariant
                    0 <= k <= i < len,
                    len == self@.len(),
                    len == self.entries@.len(),
                    order@.len() == i,
                    score == self@[i as int].1.score,
                    forall|j: int| 0 <= j < i ==> #[trigger] order@[j] < i,
                    forall|j: int|
                        k <= j < i ==> self@[#[trigger] order@[j] as int].1.score < score,
                decreases k,
            {
                assert(self@[order@[k - 1] as int].1.score < score);
                k = k - 1;
            }
            let ghost before = order@;
            order.insert(k, i);
            proof {
                assert forall|a: int, b: int| 0 <= a < b < i + 1 implies outranks(
                    self@,
                    #[trigger] order@[a] as int,
                    #[trigger] order@[b] as int,
                ) by {
                    let c = if a < k {
                        a
                    } else {
                        a - 1
                    };
                    let d = if b < k {
                        b
                    } else {
                        b - 1
                    };
                    if a == k {
                        assert(order@[b] == before[d]);
                    } else if b == k {
                        assert(order@[a] == before[a]);
                        assert(self@[before[k - 1] as int].1.score >= score);
                        if a < k - 1 {
                            assert(outranks(self@, before[a] as int, before[k - 1] as int));
                        }
                    } else {
                        assert(order@[a] == before[c]);
                        assert(order@[b] == before[d]);
                        assert(outranks(self@, before[c] as int, before[d] as int));
                    }
                }
            }
        }
        proof {
            let p = places(order@);
            assert forall|a: int, b: int| 0 <= a < b < p.len() implies outranks(
                self@,
                #[trigger] p[a],
                #[trigger] p[b],
            ) by {
                assert(outranks(self@, order@[a] as int, order@[b] as int));
            }
        }
        order
    }

    /// All links, the better before the worse, with the best recommended.
    pub fn scoreboard(&self) -> (r: ScoreboardPayload)
        ensures
            exists|order: Seq<int>| #[trigger]
                is_ranking(self@, order) && r.shows(self@, order),
    {
        let order: Vec<usize> = self.ranking();
        let ghost p = places(order@);
        let mut links: Vec<ScoreboardEntry> = Vec::new();
        for k in 0..order.len()
            invariant
                p == places(order@),
                is_ranking(self@, p),
                self@.len() == self.entries@.len(),
                links@.len() == k,
                forall|j: int|
                    0 <= j < k ==> (#[trigger] links@[j])@ == entry_of(self@[p[j]]),
        {
            assert(p[k as int] == order@[k as int]);
            let entry = &self.entries[order[k]];
            links.push(
                ScoreboardEntry {
                    name: entry.name.clone(),
                    status: entry.state.status,
                    score: entry.state.score,
                    p95_ms: entry.state.last_p95,
                    ok_ratio: entry.state.window.ok_ratio(),
                    last_checked: entry.state.last_checked,
                },
            );
        }
        let recommended: Option<String> = if links.len() > 0 {
            Some(links[0].name.clone())
        } else {
            None
        };
        let r = ScoreboardPayload { links, recommended };
        assert(is_ranking(self@, p) && r.shows(self@, p));
        r
    }

    /// The link with the highest score, the latest registered where several have it, and the
    /// score: nothing where there are no links.
    pub fn best(&self) -> (r: Option<(String, u8)>)
        ensures
            r is None <==> self@.len() == 0,
            r matches Some((name, score)) ==> exists|i: int| #[trigger]
                is_best(self@, i) && self@[i].0 == name@ && self@[i].1.score == score,
    {
        let len: usize = self.entries.len();
        if len == 0 {
            return None;
        }
        let mut best: usize = 0;
        for i in 1..len
            invariant
                len == self@.len(),
                len == self.entries@.len(),
                best < i <= len,
                forall|j: int|
                    0 <= j < i ==> (#[trigger] self@[j]).1.score <= self@[best as int].1.score,
                forall|j: int|
                    best < j < i ==> (#[trigger] self@[j]).1.score < self@[best as int].1.score,
        {
            if self.entries[i].state.score >= self.entries[best].state.score {
                best = i;
            }
        }
        assert(is_best(self@, best as int));
        let entry = &self.entries[best];
        Some((entry.name.clone(), entry.state.score))
    }

    /// What is published after a round of the link with this name: its state, and which link is
    /// recommended at this moment.
    pub fn state_report(&self, name: &String, window_size: usize, mqtt: &MqttConfig) -> (r: Option<
        StateReport,
    >)
        requires
            table_wf(self@),
        ensures
            r is Some <==> known(self@, name@),
            r is Some ==> {
                &&& r->0.topic@ == crate::mqtt::state_topic(mqtt.base_topic@, name@)
                &&& r->0.topic@ == mqtt.base_topic@ + "/"@ + name@ + "/state"@
                &&& r->0.recommended.topic@ == mqtt.base_topic@ + "/recommended"@
                &&& r->0.payload == payload_of(state_of(self@, name@), window_size)
                &&& r->0.qos == mqtt.qos
                &&& r->0.retain == mqtt.retain
                &&& exists|i: int| #[trigger]
                    is_best(self@, i) && r->0.recommended.says(
                        mqtt,
                        crate::mqtt::recommended_topic(mqtt.base_topic@),
                        self@[i].0,
                    )
            },
    {
        match (self.status_payload(name, window_size), self.best()) {
            (Some(payload), Some((best, _))) => {
                let base: &str = mqtt.base_topic.as_str();
                Some(
                    StateReport {
                        topic: make_state_topic(base, name.as_str()),
                        payload,
                        qos: mqtt.qos,
                        retain: mqtt.retain,
                        recommended: make_message(mqtt, make_recommended_topic(base), best),
                    },
                )
            },
            _ => None,
        }
    }
}

/// A state that is set can be read back, and no other link notices.
pub proof fn law_state_reads_back(
    t: TableView,
    name: Seq<char>,
    state: LinkView,
    other: Seq<char>,
)
    requires
        table_wf(t),
        state.wf(),
    ensures
        table_wf(with_state(t, name, state)),
        known(with_state(t, name, state), name),
        state_of(with_state(t, name, state), name) == state,
        other != name ==> (known(with_state(t, name, state), other) <==> known(t, other)),
        other != name && known(t, other) ==> state_of(with_state(t, name, state), other)
            == state_of(t, other),
{
    let u = with_state(t, name, state);
    if known(t, name) {
        assert(u[place(t, name)] == (name, state));
    } else {
        assert(u[t.len() as int] == (name, state));
    }
    assert(table_wf(u));
    assert(known(u, name));
    if other != name {
        if known(t, other) {
            assert(u[place(t, other)] == t[place(t, other)]);
            assert(known(u, other));
        }
        if known(u, other) {
            assert(t[place(u, other)] == u[place(u, other)]);
        }
    }
}

/// A round and a score keep a state well-formed, and so does a fresh start: at any time the
/// status of a link is the one that its score stands for, on a scale from 0 to 100.
pub proof fn law_states_stay_well_formed(
    state: LinkView,
    ok: bool,
    latency_ms: Option<u128>,
    now: Timestamp,
    window_size: nat,
    percent: int,
    p95_ms: Option<u128>,
)
    requires
        state.wf(),
    ensures
        LinkView::fresh(window_size, now).wf(),
        state.after_round(ok, latency_ms, now).wf(),
        state.scored(percent, p95_ms).wf(),
{
}

/// What is told of a link is what its last round and its last score gave.
pub proof fn law_status_shows_the_last_round(
    t: TableView,
    name: Seq<char>,
    ok: bool,
    latency_ms: Option<u128>,
    now: Timestamp,
    percent: int,
    p95_ms: Option<u128>,
    window: usize,
)
    requires
        table_wf(t),
        known(t, name),
    ensures
        ({
            let recorded = with_state(
                t,
                name,
                state_of(t, name).after_round(ok, latency_ms, now),
            );
            let scored = with_state(
                recorded,
                name,
                state_of(recorded, name).scored(percent, p95_ms),
            );
            let told = payload_of(state_of(scored, name), window);
            &&& known(scored, name)
            &&& told.score == crate::status::score_of(percent)
            &&& told.status == crate::status::status_of(told.score)
            &&& told.latency_ms == latency_ms
            &&& told.p95_ms == p95_ms
            &&& told.last_checked == now
            &&& told.window == window
        }),
{
    let first = state_of(t, name).after_round(ok, latency_ms, now);
    law_state_reads_back(t, name, first, name);
    let recorded = with_state(t, name, first);
    law_state_reads_back(recorded, name, first.scored(percent, p95_ms), name);
}

/// A link that was just registered is told of as failed with no score, whatever was known of the
/// name before.
pub proof fn law_registered_link_starts_failed(
    t: TableView,
    name: Seq<char>,
    window_size: nat,
    now: Timestamp,
    window: usize,
)
    requires
        table_wf(t),
    ensures
        ({
            let u = with_state(t, name, LinkView::fresh(window_size, now));
            let told = payload_of(state_of(u, name), window);
            &&& known(u, name)
            &&& told.status == InternetStatus::Failed
            &&& told.score == 0
            &&& told.latency_ms is None
            &&& told.p95_ms is None
            &&& told.ok_ratio.num == 0
            &&& told.last_checked == now
        }),
{
    law_state_reads_back(t, name, LinkView::fresh(window_size, now), name);
}

proof fn lemma_rounds_fill_the_window(
    window_size: nat,
    start: Timestamp,
    rounds: Seq<RoundRecord>,
)
    ensures
        ({
            let state = LinkView::fresh(window_size, start).after_rounds(rounds);
            &&& state.bound == window_size
            &&& state.outcomes == crate::window::pushed_all(
                Seq::empty(),
                window_size,
                outcomes_of(rounds),
            )
        }),
    decreases rounds.len(),
{
    if rounds.len() > 0 {
        lemma_rounds_fill_the_window(window_size, start, rounds.drop_last());
        assert(outcomes_of(rounds).drop_last() =~= outcomes_of(rounds.drop_last()));
    }
}

/// The share of successes that is told of a link is that among its latest rounds, as many as the
/// window size says.
pub proof fn law_told_share_is_of_the_latest_rounds(
    window_size: nat,
    start: Timestamp,
    rounds: Seq<RoundRecord>,
    window: usize,
)
    requires
        window_size > 0,
    ensures
        ({
            let state = LinkView::fresh(window_size, start).after_rounds(rounds);
            let all = outcomes_of(rounds);
            let latest = if all.len() <= window_size {
                all
            } else {
                all.skip(all.len() - window_size)
            };
            payload_of(state, window).ok_ratio == crate::window::availability_of(latest)
        }),
{
    lemma_rounds_fill_the_window(window_size, start, rounds);
    crate::window::law_window_holds_the_latest(window_size, outcomes_of(rounds));
}

/// A ranking lists every link, and every link once.
pub proof fn law_ranking_lists_every_link(t: TableView, order: Seq<int>)
    requires
        is_ranking(t, order),
    ensures
        order.no_duplicates(),
        forall|i: int| 0 <= i < t.len() ==> #[trigger] order.contains(i),
{
    let n = t.len() as int;
    assert forall|a: int, b: int|
        0 <= a < order.len() && 0 <= b < order.len() && a != b implies order[a] != order[b] by {
        if a < b {
            assert(outranks(t, order[a], order[b]));
        } else {
            assert(outranks(t, order[b], order[a]));
        }
    }
    order.unique_seq_to_set();
    vstd::set_lib::lemma_int_range(0, n);
    let all = vstd::set_lib::set_int_range(0, n);
    assert(order.to_set().subset_of(all));
    vstd::set_lib::lemma_subset_equality(order.to_set(), all);
    assert forall|i: int| 0 <= i < t.len() implies #[trigger] order.contains(i) by {
        assert(all.contains(i));
        assert(order.to_set().contains(i));
    }
}

/// A table has only one ranking.
pub proof fn law_ranking_is_unique(t: TableView, p: Seq<int>, q: Seq<int>)
    requires
        is_ranking(t, p),
        is_ranking(t, q),
    ensures
        p == q,
{
    law_ranking_lists_every_link(t, p);
    law_ranking_lists_every_link(t, q);
    lemma_rankings_agree(t, p, q, p.len() as int);
    assert(p =~= q);
}

proof fn lemma_rankings_agree(t: TableView, p: Seq<int>, q: Seq<int>, k: int)
    requires
        is_ranking(t, p),
        is_ranking(t, q),
        p.no_duplicates(),
        q.no_duplicates(),
        forall|i: int| 0 <= i < t.len() ==> #[trigger] p.contains(i),
        forall|i: int| 0 <= i < t.len() ==> #[trigger] q.contains(i),
        0 <= k <= p.len(),
    ensures
        forall|j: int| 0 <= j < k ==> p[j] == q[j],
    decreases k,
{
    if k > 0 {
        let c = k - 1;
        lemma_rankings_agree(t, p, q, c);
        if p[c] != q[c] {
            assert(q.contains(p[c]));
            assert(p.contains(q[c]));
            let m = choose|m: int| 0 <= m < q.len() && q[m] == p[c];
            let n = choose|n: int| 0 <= n < p.len() && p[n] == q[c];
            if m < c {
                assert(p[m] == q[m]);
            }
            if n < c {
                assert(p[n] == q[n]);
            }
            assert(outranks(t, q[c], q[m]));
            assert(outranks(t, p[c], p[n]));
        }
    }
}

/// The scores on a scoreboard never rise from one entry to the next, and the recommended link
/// has the highest score of all.
pub proof fn law_recommended_is_the_best(board: &ScoreboardPayload, t: TableView, order: Seq<int>)
    requires
        is_ranking(t, order),
        board.shows(t, order),
    ensures
        forall|a: int, b: int|
            0 <= a < b < board.links@.len() ==> (#[trigger] board.links@[a]).score >= (
            #[trigger] board.links@[b]).score,
        board.recommended is None <==> t.len() == 0,
        t.len() > 0 ==> board.recommended is Some && board.recommended->0@ == t[order[0]].0,
        forall|i: int| 0 <= i < t.len() ==> (#[trigger] t[i]).1.score <= t[order[0]].1.score,
{
    law_ranking_lists_every_link(t, order);
    assert forall|a: int, b: int| 0 <= a < b < board.links@.len() implies (
    #[trigger] board.links@[a]).score >= (#[trigger] board.links@[b]).score by {
        assert(board.links@[a]@ == entry_of(t[order[a]]));
        assert(board.links@[b]@ == entry_of(t[order[b]]));
        assert(outranks(t, order[a], order[b]));
    }
    assert forall|i: int| 0 <= i < t.len() implies (#[trigger] t[i]).1.score
        <= t[order[0]].1.score by {
        assert(order.contains(i));
        let k = choose|k: int| 0 <= k < order.len() && order[k] == i;
        if k > 0 {
            assert(outranks(t, order[0], order[k]));
        }
    }
}

/// There is only one best link.
pub proof fn law_best_is_unique(t: TableView, a: int, b: int)
    requires
        is_best(t, a),
        is_best(t, b),
    ensures
        a == b,
{
    if a < b {
        assert(t[b].1.score < t[a].1.score);
    } else if b < a {
        assert(t[a].1.score < t[b].1.score);
    }
}

/// The link that is recommended on the scoreboard and the one that is published as the best have
/// the same score, and they are the same link where no other has that score.
pub proof fn law_recommendations_agree(t: TableView, order: Seq<int>, best: int)
    requires
        is_ranking(t, order),
        is_best(t, best),
    ensures
        t[order[0]].1.score == t[best].1.score,
        (forall|j: int|
            0 <= j < t.len() && j != best ==> (#[trigger] t[j]).1.score != t[best].1.score)
            ==> order[0] == best,
{
    law_ranking_lists_every_link(t, order);
    assert(order.contains(best));
    let k = choose|k: int| 0 <= k < order.len() && order[k] == best;
    if k > 0 {
        assert(outranks(t, order[0], order[k]));
    }
    assert(t[order[0]].1.score <= t[best].1.score);
}

/// In a well-formed table the place of a name that occurs is where it occurs.
proof fn lemma_place_is_where_the_name_is(t: TableView, i: int)
    requires
        table_wf(t),
        0 <= i < t.len(),
    ensures
        known(t, t[i].0),
        place(t, t[i].0) == i,
{
    let p = place(t, t[i].0);
    assert(known(t, t[i].0));
    assert(0 <= p < t.len() && t[p].0 == t[i].0);
}

/// A name is known exactly where it stands in the table, and its state is the one that stands beside
/// it.
pub proof fn law_names_are_looked_up_exactly(t: TableView, name: Seq<char>)
    requires
        table_wf(t),
    ensures
        known(t, name) <==> exists|i: int| 0 <= i < t.len() && (#[trigger] t[i]).0 == name,
        forall|i: int|
            0 <= i < t.len() && (#[trigger] t[i]).0 == name ==> state_of(t, name) == t[i].1,
{
    assert forall|i: int| 0 <= i < t.len() && (#[trigger] t[i]).0 == name implies state_of(t, name)
        == t[i].1 by {
        lemma_place_is_where_the_name_is(t, i);
    }
}

/// Setting a state keeps every other link as it is, in its place. A new name comes last.
pub proof fn law_setting_a_state_keeps_the_order(t: TableView, name: Seq<char>, state: LinkView)
    requires
        table_wf(t),
    ensures
        ({
            let u = with_state(t, name, state);
            &&& known(t, name) ==> u.len() == t.len()
            &&& !known(t, name) ==> u.len() == t.len() + 1 && u[t.len() as int].0 == name
                && u[t.len() as int].1 == state
            &&& forall|i: int| 0 <= i < t.len() ==> (#[trigger] u[i]).0 == t[i].0
            &&& forall|i: int|
                0 <= i < t.len() && t[i].0 != name ==> (#[trigger] u[i]).1 == t[i].1
            &&& forall|i: int| 0 <= i < t.len() && t[i].0 == name ==> (#[trigger] u[i]).1 == state
        }),
{
    let u = with_state(t, name, state);
    assert forall|i: int| 0 <= i < t.len() && t[i].0 == name implies (#[trigger] u[i]).1
        == state by {
        lemma_place_is_where_the_name_is(t, i);
    }
}

/// What is told of a link is its state: the status, the score, the percentile and the moment as they
/// stand there, the latency of the latest outcome, and the successes over the outcomes.
pub proof fn law_told_is_the_state(state: LinkView, window: usize)
    requires
        state.outcomes.len() <= usize::MAX,
    ensures
        ({
            let told = payload_of(state, window);
            let held = state.outcomes;
            &&& told.status == state.status
            &&& told.score == state.score
            &&& told.p95_ms == state.last_p95
            &&& told.last_checked == state.last_checked
            &&& told.window == window
            &&& held.len() == 0 ==> told.latency_ms is None && told.ok_ratio.num == 0
                && told.ok_ratio.den == 1
            &&& held.len() > 0 ==> told.latency_ms == held[held.len() - 1].1 && told.ok_ratio.den
                == held.len() && told.ok_ratio.num == held.filter(
                |o: crate::window::Outcome| o.0,
            ).len()
        }),
{
    if state.outcomes.len() > 0 {
        crate::window::law_ratio_counts_successes(state.outcomes);
    }
}

/// Of a known link the score that is told is at most 100, and the status is the one for that score:
/// normal from 80 on, degraded from 40 to 79, failed below.
pub proof fn law_told_status_is_the_band_of_the_score(t: TableView, name: Seq<char>, window: usize)
    requires
        table_wf(t),
        known(t, name),
    ensures
        ({
            let told = payload_of(state_of(t, name), window);
            &&& told.score <= 100
            &&& told.status == InternetStatus::Normal <==> told.score >= 80
            &&& told.status == InternetStatus::Degraded <==> 40 <= told.score <= 79
            &&& told.status == InternetStatus::Failed <==> told.score < 40
        }),
{
    assert(t[place(t, name)].1.wf());
}

/// A fresh link has no outcomes, no percentile and no score, counts as failed, and was last checked
/// when it was registered.
pub proof fn law_fresh_link_has_nothing(window_size: nat, now: Timestamp)
    ensures
        ({
            let s = LinkView::fresh(window_size, now);
            &&& s.outcomes.len() == 0
            &&& s.bound == window_size
            &&& s.last_checked == now
            &&& s.last_p95 is None
            &&& s.score == 0
            &&& s.status == InternetStatus::Failed
        }),
{
}

/// A round sets the moment and adds its outcome as the latest; until the score is worked out, score,
/// status and percentile stay. A score sets these three, and leaves outcomes and moment alone.
pub proof fn law_round_and_score_keep_to_their_own(
    state: LinkView,
    ok: bool,
    latency_ms: Option<u128>,
    now: Timestamp,
    percent: int,
    p95_ms: Option<u128>,
)
    ensures
        ({
            let r = state.after_round(ok, latency_ms, now);
            &&& r.outcomes.len() > 0
            &&& r.outcomes[r.outcomes.len() - 1] == (ok, latency_ms)
            &&& r.outcomes == crate::window::pushed(state.outcomes, state.bound, (ok, latency_ms))
            &&& r.last_checked == now
            &&& r.bound == state.bound
            &&& r.score == state.score
            &&& r.status == state.status
            &&& r.last_p95 == state.last_p95
        }),
        ({
            let s = state.scored(percent, p95_ms);
            &&& s.outcomes == state.outcomes
            &&& s.bound == state.bound
            &&& s.last_checked == state.last_checked
            &&& s.last_p95 == p95_ms
            &&& 0 <= percent <= 100 ==> s.score == percent
            &&& percent < 0 ==> s.score == 0
            &&& percent > 100 ==> s.score == 100
            &&& s.status == InternetStatus::Normal <==> percent >= 80
            &&& s.status == InternetStatus::Degraded <==> 40 <= percent <= 79
            &&& s.status == InternetStatus::Failed <==> percent < 40
        }),
{
}

/// Each entry of a scoreboard shows what is told of the link of that name, and its status is the one
/// for its own score.
pub proof fn law_scoreboard_agrees_with_what_is_told(
    board: &ScoreboardPayload,
    t: TableView,
    order: Seq<int>,
    window: usize,
    k: int,
)
    requires
        table_wf(t),
        is_ranking(t, order),
        board.shows(t, order),
        0 <= k < board.links@.len(),
    ensures
        ({
            let e = board.links@[k];
            let told = payload_of(state_of(t, e.name@), window);
            &&& known(t, e.name@)
            &&& e.status == told.status
            &&& e.score == told.score
            &&& e.p95_ms == told.p95_ms
            &&& e.ok_ratio == told.ok_ratio
            &&& e.last_checked == told.last_checked
            &&& e.status == InternetStatus::Normal <==> e.score >= 80
            &&& e.status == InternetStatus::Degraded <==> 40 <= e.score <= 79
            &&& e.status == InternetStatus::Failed <==> e.score < 40
        }),
{
    let i = order[k];
    assert(0 <= i < t.len());
    assert(board.links@[k]@ == entry_of(t[i]));
    assert(board.links@[k]@.name == t[i].0);
    lemma_place_is_where_the_name_is(t, i);
    law_told_status_is_the_band_of_the_score(t, t[i].0, window);
}

/// On a scoreboard there are as many entries as links, and every link stands at one of its places
/// under its name.
pub proof fn law_scoreboard_shows_every_link(
    board: &ScoreboardPayload,
    t: TableView,
    order: Seq<int>,
    i: int,
)
    requires
        is_ranking(t, order),
        board.shows(t, order),
        0 <= i < t.len(),
    ensures
        board.links@.len() == t.len(),
        exists|k: int|
            0 <= k < board.links@.len() && (#[trigger] board.links@[k]).name@ == t[i].0,
{
    law_ranking_lists_every_link(t, order);
    assert(order.contains(i));
    let k = choose|k: int| 0 <= k < order.len() && order[k] == i;
    assert(board.links@[k]@ == entry_of(t[order[k]]));
    assert(board.links@[k]@.name == t[i].0);
    assert(board.links@[k].name@ == t[i].0);
}

/// In a ranking a link with a higher score comes before one with a lower, and of links with the same
/// score the one that was registered first.
pub proof fn law_ranking_goes_by_score(t: TableView, order: Seq<int>, a: int, b: int)
    requires
        is_ranking(t, order),
        0 <= a < order.len(),
        0 <= b < order.len(),
    ensures
        t[order[a]].1.score > t[order[b]].1.score ==> a < b,
        t[order[a]].1.score == t[order[b]].1.score && order[a] < order[b] ==> a < b,
{
    if b < a {
        assert(outranks(t, order[b], order[a]));
    }
}

/// No link has a higher score than the best one.
pub proof fn law_best_has_the_highest_score(t: TableView, best: int, i: int)
    requires
        is_best(t, best),
        0 <= i < t.len(),
    ensures
        0 <= best < t.len(),
        t[i].1.score <= t[best].1.score,
        i > best ==> t[i].1.score < t[best].1.score,
{
}

/// Rounds come in one by one, each recorded and then scored on the state that those before it left.
pub proof fn law_rounds_act_in_order(state: LinkView, rounds: Seq<RoundRecord>, r: RoundRecord)
    ensures
        state.after_rounds(Seq::empty()) == state,
        state.after_rounds(rounds.push(r)) == state.after_rounds(rounds).after_round(
            r.ok,
            r.latency_ms,
            r.now,
        ).scored(r.percent, r.p95_ms),
        outcomes_of(rounds).len() == rounds.len(),
        forall|i: int|
            0 <= i < rounds.len() ==> #[trigger] outcomes_of(rounds)[i] == (
                rounds[i].ok,
                rounds[i].latency_ms,
            ),
{
    assert(rounds.push(r).drop_last() =~= rounds);
}

} // verus!
