//! The telemetry event contract (`cleverhans::telemetry::*` targets and
//! their fields), and how a metrics subscriber turns each event into
//! instrument updates. Emitting and exporting stay with the caller.

use vstd::prelude::*;

use crate::envelope::opt_str_view;
use crate::proposal::{state_name, ProposalState};
use crate::text::{chars_of, concat2, str_eq};

verus! {

/// A field value of a telemetry event.
#[derive(Debug)]
pub enum FieldValue {
    Str(String),
    U64(u64),
}

/// One telemetry event: its target and named fields, in order.
#[derive(Debug)]
pub struct TelemetryEvent {
    pub target: String,
    pub fields: Vec<(String, FieldValue)>,
}

pub open spec fn field_view(f: (String, FieldValue)) -> (Seq<char>, FieldV) {
    (f.0@, match f.1 {
        FieldValue::Str(s) => FieldV::Str(s@),
        FieldValue::U64(n) => FieldV::U64(n),
    })
}

/// Model of a [`FieldValue`].
pub enum FieldV {
    Str(Seq<char>),
    U64(u64),
}

pub open spec fn fields_view(v: Seq<(String, FieldValue)>) -> Seq<(Seq<char>, FieldV)> {
    v.map_values(|f: (String, FieldValue)| field_view(f))
}

/// The event recording one proposal lifecycle transition; recorded only
/// after the store accepted the transition.
pub fn proposal_state(action_id: &str, state: ProposalState, reason: Option<&str>) -> (e: TelemetryEvent)
    ensures
        e.target@ == "cleverhans::telemetry::proposal"@,
        fields_view(e.fields@) == seq![
            ("action_id"@, FieldV::Str(action_id@)),
            ("state"@, FieldV::Str(state_name(state))),
            ("reason"@, FieldV::Str(match reason {
                Some(r) => r@,
                None => Seq::empty(),
            })),
        ],
{
    let mut fields: Vec<(String, FieldValue)> = Vec::new();
    fields.push(("action_id".to_owned(), FieldValue::Str(action_id.to_owned())));
    fields.push(("state".to_owned(), FieldValue::Str(state.name().to_owned())));
    let r = match reason {
        Some(r) => r.to_owned(),
        None => String::new(),
    };
    fields.push(("reason".to_owned(), FieldValue::Str(r)));
    let e = TelemetryEvent { target: "cleverhans::telemetry::proposal".to_owned(), fields };
    assert(fields_view(e.fields@) =~= seq![
        ("action_id"@, FieldV::Str(action_id@)),
        ("state"@, FieldV::Str(state_name(state))),
        ("reason"@, FieldV::Str(match reason {
            Some(r) => r@,
            None => Seq::<char>::empty(),
        })),
    ]);
    e
}

/// The open/closed pair of one envelope session: `opened` when it starts,
/// `closed` (with the reason and duration) when it ends, however it ends.
pub struct SessionSpan {
    reason: String,
}

impl SessionSpan {
    pub closed spec fn reason_view(self) -> Seq<char> {
        self.reason@
    }

    /// Starts a span whose close reason is `closed`; the event to emit now
    /// is `phase = "opened"`.
    pub fn open() -> (r: (SessionSpan, TelemetryEvent))
        ensures
            r.0.reason_view() == "closed"@,
            r.1.target@ == "cleverhans::telemetry::session"@,
            fields_view(r.1.fields@) == seq![("phase"@, FieldV::Str("opened"@))],
    {
        let mut fields: Vec<(String, FieldValue)> = Vec::new();
        fields.push(("phase".to_owned(), FieldValue::Str("opened".to_owned())));
        let e = TelemetryEvent { target: "cleverhans::telemetry::session".to_owned(), fields };
        assert(fields_view(e.fields@) =~= seq![("phase"@, FieldV::Str("opened"@))]);
        (SessionSpan { reason: "closed".to_owned() }, e)
    }

    /// Overrides the reason reported when the session closes.
    pub fn set_reason(&mut self, reason: &str)
        ensures
            final(self).reason_view() == reason@,
    {
        self.reason = reason.to_owned();
    }

    /// The event that closes the span after `duration_ms`.
    pub fn closed(&self, duration_ms: u64) -> (e: TelemetryEvent)
        ensures
            e.target@ == "cleverhans::telemetry::session"@,
            fields_view(e.fields@) == seq![
                ("phase"@, FieldV::Str("closed"@)),
                ("reason"@, FieldV::Str(self.reason_view())),
                ("duration_ms"@, FieldV::U64(duration_ms)),
            ],
    {
        let mut fields: Vec<(String, FieldValue)> = Vec::new();
        fields.push(("phase".to_owned(), FieldValue::Str("closed".to_owned())));
        fields.push(("reason".to_owned(), FieldValue::Str(self.reason.clone())));
        fields.push(("duration_ms".to_owned(), FieldValue::U64(duration_ms)));
        let e = TelemetryEvent { target: "cleverhans::telemetry::session".to_owned(), fields };
        assert(fields_view(e.fields@) =~= seq![
            ("phase"@, FieldV::Str("closed"@)),
            ("reason"@, FieldV::Str(self.reason_view())),
            ("duration_ms"@, FieldV::U64(duration_ms)),
        ]);
        e
    }
}

/// The fields a metrics subscriber reads from an event.
#[derive(Debug)]
pub struct EventFields {
    pub endpoint: Option<String>,
    pub outcome: Option<String>,
    pub state: Option<String>,
    pub action_id: Option<String>,
    pub phase: Option<String>,
    pub duration_ms: Option<u64>,
}

impl EventFields {
    /// No field seen yet.
    pub fn new() -> (f: EventFields)
        ensures
            f.endpoint is None && f.outcome is None && f.state is None && f.action_id is None && f.phase is None
                && f.duration_ms is None,
    {
        EventFields { endpoint: None, outcome: None, state: None, action_id: None, phase: None, duration_ms: None }
    }

    /// Records a textual field: the known names are kept, others ignored.
    pub fn record_str(&mut self, name: &str, value: &str)
        ensures
            opt_str_view(final(self).endpoint) == if name@ == "endpoint"@ { Some(value@) } else { opt_str_view(old(self).endpoint) },
            opt_str_view(final(self).outcome) == if name@ == "outcome"@ { Some(value@) } else { opt_str_view(old(self).outcome) },
            opt_str_view(final(self).state) == if name@ == "state"@ { Some(value@) } else { opt_str_view(old(self).state) },
            opt_str_view(final(self).action_id) == if name@ == "action_id"@ { Some(value@) } else { opt_str_view(old(self).action_id) },
            opt_str_view(final(self).phase) == if name@ == "phase"@ { Some(value@) } else { opt_str_view(old(self).phase) },
            final(self).duration_ms == old(self).duration_ms,
    {
        proof {
            reveal_strlit("endpoint");
            reveal_strlit("outcome");
            reveal_strlit("state");
            reveal_strlit("action_id");
            reveal_strlit("phase");
            assert("endpoint"@.len() == 8 && "outcome"@.len() == 7 && "state"@.len() == 5);
            assert("action_id"@.len() == 9 && "phase"@.len() == 5);
            assert("state"@[0] == 's' && "phase"@[0] == 'p');
        }
        if str_eq(name, "endpoint") {
            self.endpoint = Some(value.to_owned());
        } else if str_eq(name, "outcome") {
            self.outcome = Some(value.to_owned());
        } else if str_eq(name, "state") {
            self.state = Some(value.to_owned());
        } else if str_eq(name, "action_id") {
            self.action_id = Some(value.to_owned());
        } else if str_eq(name, "phase") {
            self.phase = Some(value.to_owned());
        }
    }

    /// Records an unsigned field: only `duration_ms` is kept.
    pub fn record_u64(&mut self, name: &str, value: u64)
        ensures
            final(self).duration_ms == if name@ == "duration_ms"@ { Some(value) } else { old(self).duration_ms },
            opt_str_view(final(self).endpoint) == opt_str_view(old(self).endpoint),
            opt_str_view(final(self).outcome) == opt_str_view(old(self).outcome),
            opt_str_view(final(self).state) == opt_str_view(old(self).state),
            opt_str_view(final(self).action_id) == opt_str_view(old(self).action_id),
            opt_str_view(final(self).phase) == opt_str_view(old(self).phase),
    {
        if str_eq(name, "duration_ms") {
            self.duration_ms = Some(value);
        }
    }

    /// Records a signed field: a non-negative `duration_ms` is kept, a
    /// negative one clears it.
    pub fn record_i64(&mut self, name: &str, value: i64)
        ensures
            final(self).duration_ms == if name@ == "duration_ms"@ {
                if value >= 0 { Some(value as u64) } else { None }
            } else {
                old(self).duration_ms
            },
            opt_str_view(final(self).endpoint) == opt_str_view(old(self).endpoint),
            opt_str_view(final(self).outcome) == opt_str_view(old(self).outcome),
            opt_str_view(final(self).state) == opt_str_view(old(self).state),
            opt_str_view(final(self).action_id) == opt_str_view(old(self).action_id),
            opt_str_view(final(self).phase) == opt_str_view(old(self).phase),
    {
        if str_eq(name, "duration_ms") {
            self.duration_ms = if value >= 0 { Some(value as u64) } else { None };
        }
    }
}

/// The instruments of the metrics table.
#[derive(Debug, Clone, Copy, PartialEq, Eq, Structural)]
pub enum Instrument {
    /// `cleverhans.proposals` (counter).
    Proposals,
    /// `cleverhans.webhook.deliveries` (counter).
    Deliveries,
    /// `cleverhans.webhook.delivery.duration` (histogram, ms).
    DeliveryDuration,
    /// `cleverhans.webhook.execute.retries` (counter).
    ExecuteRetries,
    /// `cleverhans.sessions.active` (up-down counter).
    SessionsActive,
    /// `cleverhans.sessions.duration` (histogram, ms).
    SessionDuration,
    /// `cleverhans.llm.requests` (counter).
    LlmRequests,
    /// `cleverhans.llm.duration` (histogram, ms).
    LlmDuration,
}

/// One instrument update: add to a counter, or record a histogram sample,
/// with attributes.
#[derive(Debug)]
pub enum MetricUpdate {
    Add { instrument: Instrument, delta: i64, attrs: Vec<(String, String)> },
    Record { instrument: Instrument, value: u64, attrs: Vec<(String, String)> },
}

/// Model of a [`MetricUpdate`].
pub enum UpdateV {
    Add(Instrument, int, Seq<(Seq<char>, Seq<char>)>),
    Record(Instrument, u64, Seq<(Seq<char>, Seq<char>)>),
}

pub open spec fn attrs_view(v: Seq<(String, String)>) -> Seq<(Seq<char>, Seq<char>)> {
    v.map_values(|a: (String, String)| (a.0@, a.1@))
}

pub open spec fn update_view(u: MetricUpdate) -> UpdateV {
    match u {
        MetricUpdate::Add { instrument, delta, attrs } => UpdateV::Add(instrument, delta as int, attrs_view(attrs@)),
        MetricUpdate::Record { instrument, value, attrs } => UpdateV::Record(instrument, value, attrs_view(attrs@)),
    }
}

pub open spec fn updates_view(v: Seq<MetricUpdate>) -> Seq<UpdateV> {
    v.map_values(|u: MetricUpdate| update_view(u))
}

pub open spec fn or_unknown(v: Option<String>) -> Seq<char> {
    match v {
        Some(s) => s@,
        None => "unknown"@,
    }
}

/// The telemetry kind of a target: what follows `cleverhans::telemetry::`.
pub open spec fn telemetry_kind(target: Seq<char>) -> Option<Seq<char>> {
    let p = "cleverhans::telemetry::"@;
    if p.len() <= target.len() && target.take(p.len() as int) == p {
        Some(target.skip(p.len() as int))
    } else {
        None
    }
}

/// The instrument updates an event makes: a proposal counts by state (and
/// action); a delivery counts by endpoint and outcome and samples its
/// duration by endpoint; a retry counts; a session opens or closes the
/// active count and samples its duration on close; a model call counts by
/// outcome and samples its duration. Other targets change nothing.
pub open spec fn metric_plan(target: Seq<char>, f: EventFields) -> Seq<UpdateV> {
    match telemetry_kind(target) {
        None => Seq::empty(),
        Some(kind) => if kind == "proposal"@ {
            let base = seq![("state"@, or_unknown(f.state))];
            let attrs = match f.action_id {
                Some(a) => base.push(("action_id"@, a@)),
                None => base,
            };
            seq![UpdateV::Add(Instrument::Proposals, 1, attrs)]
        } else if kind == "delivery"@ {
            let attrs = seq![("endpoint"@, or_unknown(f.endpoint)), ("outcome"@, or_unknown(f.outcome))];
            let count = seq![UpdateV::Add(Instrument::Deliveries, 1, attrs)];
            match f.duration_ms {
                Some(d) => count.push(UpdateV::Record(Instrument::DeliveryDuration, d, attrs.take(1))),
                None => count,
            }
        } else if kind == "delivery_retry"@ {
            seq![UpdateV::Add(Instrument::ExecuteRetries, 1, Seq::empty())]
        } else if kind == "session"@ {
            match f.phase {
                Some(p) => if p@ == "opened"@ {
                    seq![UpdateV::Add(Instrument::SessionsActive, 1, Seq::empty())]
                } else if p@ == "closed"@ {
                    let close = seq![UpdateV::Add(Instrument::SessionsActive, -1, Seq::empty())];
                    match f.duration_ms {
                        Some(d) => close.push(UpdateV::Record(Instrument::SessionDuration, d, Seq::empty())),
                        None => close,
                    }
                } else {
                    Seq::empty()
                },
                None => Seq::empty(),
            }
        } else if kind == "llm"@ {
            let count = seq![UpdateV::Add(Instrument::LlmRequests, 1, seq![("outcome"@, or_unknown(f.outcome))])];
            match f.duration_ms {
                Some(d) => count.push(UpdateV::Record(Instrument::LlmDuration, d, Seq::empty())),
                None => count,
            }
        } else {
            Seq::empty()
        },
    }
}

fn no_attrs() -> (v: Vec<(String, String)>)
    ensures
        attrs_view(v@) == Seq::<(Seq<char>, Seq<char>)>::empty(),
{
    let v: Vec<(String, String)> = Vec::new();
    assert(attrs_view(v@) =~= Seq::<(Seq<char>, Seq<char>)>::empty());
    v
}

fn unknown_or(v: &Option<String>) -> (s: String)
    ensures
        s@ == or_unknown(*v),
{
    match v {
        Some(s) => s.clone(),
        None => "unknown".to_owned(),
    }
}

fn strip_telemetry_prefix(target: &str) -> (r: Option<String>)
    ensures
        match telemetry_kind(target@) {
            Some(k) => r matches Some(x) && x@ == k,
            None => r is None,
        },
{
    let tc = chars_of(target);
    let pc = chars_of("cleverhans::telemetry::");
    if pc.len() > tc.len() {
        return None;
    }
    let mut i: usize = 0;
    while i < pc.len()
        invariant
            i <= pc.len() <= tc.len(),
            tc@ == target@,
            pc@ == "cleverhans::telemetry::"@,
            forall|j: int| 0 <= j < i ==> tc@[j] == pc@[j],
        decreases pc.len() - i,
    {
        if tc[i] != pc[i] {
            assert(tc@.take(pc.len() as int)[i as int] != pc@[i as int]);
            return None;
        }
        i = i + 1;
    }
    assert(tc@.take(pc.len() as int) =~= pc@);
    Some(crate::text::substring(&tc, pc.len(), tc.len()))
}

/// The instrument updates a telemetry event makes; see [`metric_plan`].
pub fn metric_updates(target: &str, fields: &EventFields) -> (r: Vec<MetricUpdate>)
    ensures
        updates_view(r@) == metric_plan(target@, *fields),
{
    proof {
        reveal_strlit("opened");
        reveal_strlit("closed");
        reveal_strlit("proposal");
        reveal_strlit("delivery");
        reveal_strlit("delivery_retry");
        reveal_strlit("session");
        reveal_strlit("llm");
        assert("proposal"@.len() == 8 && "delivery"@.len() == 8 && "delivery_retry"@.len() == 14);
        assert("session"@.len() == 7 && "llm"@.len() == 3 && "proposal"@[0] == 'p' && "delivery"@[0] == 'd');
        assert("opened"@[0] == 'o' && "closed"@[0] == 'c');
    }
    let mut out: Vec<MetricUpdate> = Vec::new();
    let kind = match strip_telemetry_prefix(target) {
        Some(k) => k,
        None => {
            assert(updates_view(out@) =~= Seq::<UpdateV>::empty());
            return out;
        },
    };
    if str_eq(kind.as_str(), "proposal") {
        let mut attrs: Vec<(String, String)> = Vec::new();
        attrs.push(("state".to_owned(), unknown_or(&fields.state)));
        match &fields.action_id {
            Some(a) => attrs.push(("action_id".to_owned(), a.clone())),
            None => {},
        }
        assert(attrs_view(attrs@) =~= match fields.action_id {
            Some(a) => seq![("state"@, or_unknown(fields.state))].push(("action_id"@, a@)),
            None => seq![("state"@, or_unknown(fields.state))],
        });
        out.push(MetricUpdate::Add { instrument: Instrument::Proposals, delta: 1, attrs });
        assert(updates_view(out@) =~= metric_plan(target@, *fields));
    } else if str_eq(kind.as_str(), "delivery") {
        let mut attrs: Vec<(String, String)> = Vec::new();
        attrs.push(("endpoint".to_owned(), unknown_or(&fields.endpoint)));
        attrs.push(("outcome".to_owned(), unknown_or(&fields.outcome)));
        let mut first: Vec<(String, String)> = Vec::new();
        first.push(("endpoint".to_owned(), unknown_or(&fields.endpoint)));
        let ghost av = attrs_view(attrs@);
        assert(av =~= seq![("endpoint"@, or_unknown(fields.endpoint)), ("outcome"@, or_unknown(fields.outcome))]);
        out.push(MetricUpdate::Add { instrument: Instrument::Deliveries, delta: 1, attrs });
        assert(updates_view(out@) =~= seq![UpdateV::Add(Instrument::Deliveries, 1, av)]);
        match fields.duration_ms {
            Some(d) => {
                assert(attrs_view(first@) =~= av.take(1));
                out.push(MetricUpdate::Record { instrument: Instrument::DeliveryDuration, value: d, attrs: first });
            },
            None => {},
        }
        assert(updates_view(out@) =~= metric_plan(target@, *fields));
    } else if str_eq(kind.as_str(), "delivery_retry") {
        out.push(MetricUpdate::Add { instrument: Instrument::ExecuteRetries, delta: 1, attrs: no_attrs() });
        assert(updates_view(out@) =~= metric_plan(target@, *fields));
    } else if str_eq(kind.as_str(), "session") {
        match &fields.phase {
            Some(p) => {
                if str_eq(p.as_str(), "opened") {
                    out.push(MetricUpdate::Add { instrument: Instrument::SessionsActive, delta: 1, attrs: no_attrs() });
                } else if str_eq(p.as_str(), "closed") {
                    out.push(MetricUpdate::Add { instrument: Instrument::SessionsActive, delta: -1, attrs: no_attrs() });
                    match fields.duration_ms {
                        Some(d) => out.push(MetricUpdate::Record { instrument: Instrument::SessionDuration, value: d, attrs: no_attrs() }),
                        None => {},
                    }
                }
            },
            None => {},
        }
        assert(updates_view(out@) =~= metric_plan(target@, *fields));
    } else if str_eq(kind.as_str(), "llm") {
        let mut attrs: Vec<(String, String)> = Vec::new();
        attrs.push(("outcome".to_owned(), unknown_or(&fields.outcome)));
        assert(attrs_view(attrs@) =~= seq![("outcome"@, or_unknown(fields.outcome))]);
        out.push(MetricUpdate::Add { instrument: Instrument::LlmRequests, delta: 1, attrs });
        match fields.duration_ms {
            Some(d) => out.push(MetricUpdate::Record { instrument: Instrument::LlmDuration, value: d, attrs: no_attrs() }),
            None => {},
        }
        assert(updates_view(out@) =~= metric_plan(target@, *fields));
    } else {
        assert(updates_view(out@) =~= metric_plan(target@, *fields));
    }
    out
}

} // verus!
