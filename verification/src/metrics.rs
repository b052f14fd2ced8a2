//! What the server records in its metrics: the instruments, the attributes
//! of each measurement, and the updates that an HTTP request or an
//! operation makes. Recording them with the OpenTelemetry SDK is left to the
//! caller, which applies each `MetricUpdate` to the instrument it names.

use std::time::Duration;
use std::time::Instant;
use vstd::prelude::*;

verus! {

broadcast use vstd::string::group_string_axioms;

#[verifier::external_type_specification]
#[verifier::external_body]
pub struct ExInstant(Instant);

/// The class of a status code: its first digit followed by `xx` for codes
/// 100 to 599, `unknown` for the others.
pub open spec fn status_class_name(code: int) -> Seq<char> {
    let d = code / 100;
    if d == 1 {
        "1xx"@
    } else if d == 2 {
        "2xx"@
    } else if d == 3 {
        "3xx"@
    } else if d == 4 {
        "4xx"@
    } else if d == 5 {
        "5xx"@
    } else {
        "unknown"@
    }
}

/// The class of the HTTP status code `code`, such as `2xx` for `200`.
pub fn status_class(code: u16) -> (r: &'static str)
    ensures
        r@ == status_class_name(code as int),
{
    match code / 100 {
        1 => "1xx",
        2 => "2xx",
        3 => "3xx",
        4 => "4xx",
        5 => "5xx",
        _ => "unknown",
    }
}

/// The class of a status code depends on its hundreds digit alone: codes
/// 100 to 199 are `1xx`, 200 to 299 `2xx`, 300 to 399 `3xx`, 400 to 499
/// `4xx`, 500 to 599 `5xx`, and every other code is `unknown`; two codes
/// with the same hundreds digit have the same class.
pub proof fn law_status_class_by_hundreds(code: int, other: int)
    ensures
        100 <= code <= 199 ==> status_class_name(code) == "1xx"@,
        200 <= code <= 299 ==> status_class_name(code) == "2xx"@,
        300 <= code <= 399 ==> status_class_name(code) == "3xx"@,
        400 <= code <= 499 ==> status_class_name(code) == "4xx"@,
        500 <= code <= 599 ==> status_class_name(code) == "5xx"@,
        code < 100 || code > 599 ==> status_class_name(code) == "unknown"@,
        0 <= code && 0 <= other && code / 100 == other / 100 ==> status_class_name(code)
            == status_class_name(other),
{
}

/// The value of a measurement attribute.
#[derive(Debug)]
pub enum AttributeValue {
    Text(String),
    Integer(i64),
}

/// A measurement attribute: a key and its value.
#[derive(Debug)]
pub struct Attribute {
    pub key: String,
    pub value: AttributeValue,
}

/// An attribute value as the contracts see it.
pub enum ValueModel {
    Text(Seq<char>),
    Integer(i64),
}

impl AttributeValue {
    pub open spec fn model(self) -> ValueModel {
        match self {
            AttributeValue::Text(s) => ValueModel::Text(s@),
            AttributeValue::Integer(i) => ValueModel::Integer(i),
        }
    }
}

impl Attribute {
    pub open spec fn model(self) -> (Seq<char>, ValueModel) {
        (self.key@, self.value.model())
    }

    /// A text attribute.
    pub fn text(key: &str, value: &str) -> (r: Attribute)
        ensures
            r.model() == (key@, ValueModel::Text(value@)),
    {
        Attribute { key: key.to_owned(), value: AttributeValue::Text(value.to_owned()) }
    }

    /// An integer attribute.
    pub fn integer(key: &str, value: i64) -> (r: Attribute)
        ensures
            r.model() == (key@, ValueModel::Integer(value)),
    {
        Attribute { key: key.to_owned(), value: AttributeValue::Integer(value) }
    }

    /// A copy of the attribute.
    pub fn duplicate(&self) -> (r: Attribute)
        ensures
            r.model() == self.model(),
    {
        let value = match &self.value {
            AttributeValue::Text(s) => AttributeValue::Text(s.clone()),
            AttributeValue::Integer(i) => AttributeValue::Integer(*i),
        };
        Attribute { key: self.key.clone(), value }
    }
}

/// A sequence of attributes as the contracts see it.
pub open spec fn attributes_model(attributes: Seq<Attribute>) -> Seq<(Seq<char>, ValueModel)> {
    attributes.map_values(|a: Attribute| a.model())
}

/// The kind of an instrument and the type of what it records.
#[derive(Clone, Copy, Debug, PartialEq, Eq, Structural)]
pub enum InstrumentKind {
    /// A monotonic counter of `u64` increments.
    Counter,
    /// A counter of `i64` changes that may go down.
    UpDownCounter,
    /// A histogram of durations in seconds.
    Histogram,
}

/// The instruments the server records to.
#[derive(Clone, Copy, Debug, PartialEq, Eq, Structural)]
pub enum Instrument {
    HttpRequests,
    HttpActiveRequests,
    HttpRequestDuration,
    Operations,
    OperationDuration,
    OperationBytes,
}

/// How an instrument is described to the meter that creates it.
pub struct InstrumentDescriptor {
    pub meter: &'static str,
    pub name: &'static str,
    pub description: &'static str,
    pub unit: Option<&'static str>,
    pub kind: InstrumentKind,
}

/// The descriptor of each instrument, as a tuple of meter, name,
/// description, unit and kind.
pub open spec fn descriptor_of(i: Instrument) -> (
    Seq<char>,
    Seq<char>,
    Seq<char>,
    Option<Seq<char>>,
    InstrumentKind,
) {
    match i {
        Instrument::HttpRequests => (
            "atticd.http"@,
            "http.server.request.count"@,
            "HTTP requests received"@,
            None,
            InstrumentKind::Counter,
        ),
        Instrument::HttpActiveRequests => (
            "atticd.http"@,
            "http.server.active_requests"@,
            "HTTP requests currently being processed"@,
            None,
            InstrumentKind::UpDownCounter,
        ),
        Instrument::HttpRequestDuration => (
            "atticd.http"@,
            "http.server.request.duration"@,
            "HTTP request duration"@,
            Some("s"@),
            InstrumentKind::Histogram,
        ),
        Instrument::Operations => (
            "atticd.operations"@,
            "attic.operation.count"@,
            "Attic operations and processed objects"@,
            None,
            InstrumentKind::Counter,
        ),
        Instrument::OperationDuration => (
            "atticd.operations"@,
            "attic.operation.duration"@,
            "Attic operation duration"@,
            Some("s"@),
            InstrumentKind::Histogram,
        ),
        Instrument::OperationBytes => (
            "atticd.operations"@,
            "attic.operation.bytes"@,
            "Bytes processed by Attic operations"@,
            Some("By"@),
            InstrumentKind::Counter,
        ),
    }
}

impl InstrumentDescriptor {
    pub open spec fn model(self) -> (
        Seq<char>,
        Seq<char>,
        Seq<char>,
        Option<Seq<char>>,
        InstrumentKind,
    ) {
        (
            self.meter@,
            self.name@,
            self.description@,
            match self.unit {
                Some(u) => Some(u@),
                None => None,
            },
            self.kind,
        )
    }
}

impl Instrument {
    /// Every instrument, in the order in which they are created.
    pub fn all() -> (r: Vec<Instrument>)
        ensures
            r@ == seq![
                Instrument::HttpRequests,
                Instrument::HttpActiveRequests,
                Instrument::HttpRequestDuration,
                Instrument::Operations,
                Instrument::OperationDuration,
                Instrument::OperationBytes,
            ],
    {
        let mut r = Vec::new();
        r.push(Instrument::HttpRequests);
        r.push(Instrument::HttpActiveRequests);
        r.push(Instrument::HttpRequestDuration);
        r.push(Instrument::Operations);
        r.push(Instrument::OperationDuration);
        r.push(Instrument::OperationBytes);
        assert(r@ =~= seq![
            Instrument::HttpRequests,
            Instrument::HttpActiveRequests,
            Instrument::HttpRequestDuration,
            Instrument::Operations,
            Instrument::OperationDuration,
            Instrument::OperationBytes,
        ]);
        r
    }

    /// How this instrument is described to its meter.
    pub fn descriptor(self) -> (r: InstrumentDescriptor)
        ensures
            r.model() == descriptor_of(self),
    {
        match self {
            Instrument::HttpRequests => InstrumentDescriptor {
                meter: "atticd.http",
                name: "http.server.request.count",
                description: "HTTP requests received",
                unit: None,
                kind: InstrumentKind::Counter,
            },
            Instrument::HttpActiveRequests => InstrumentDescriptor {
                meter: "atticd.http",
                name: "http.server.active_requests",
                description: "HTTP requests currently being processed",
                unit: None,
                kind: InstrumentKind::UpDownCounter,
            },
            Instrument::HttpRequestDuration => InstrumentDescriptor {
                meter: "atticd.http",
                name: "http.server.request.duration",
                description: "HTTP request duration",
                unit: Some("s"),
                kind: InstrumentKind::Histogram,
            },
            Instrument::Operations => InstrumentDescriptor {
                meter: "atticd.operations",
                name: "attic.operation.count",
                description: "Attic operations and processed objects",
                unit: None,
                kind: InstrumentKind::Counter,
            },
            Instrument::OperationDuration => InstrumentDescriptor {
                meter: "atticd.operations",
                name: "attic.operation.duration",
                description: "Attic operation duration",
                unit: Some("s"),
                kind: InstrumentKind::Histogram,
            },
            Instrument::OperationBytes => InstrumentDescriptor {
                meter: "atticd.operations",
                name: "attic.operation.bytes",
                description: "Bytes processed by Attic operations",
                unit: Some("By"),
                kind: InstrumentKind::Counter,
            },
        }
    }
}

/// What a measurement records.
#[derive(Clone, Copy, Debug)]
pub enum Measure {
    /// An increment of a counter.
    Add(u64),
    /// A change of an up-down counter.
    Change(i64),
    /// The time elapsed since this instant, in seconds.
    ElapsedSince(Instant),
    /// This duration, in seconds.
    Seconds(Duration),
}

/// One measurement to record: on which instrument, what, with which
/// attributes.
pub struct MetricUpdate {
    pub instrument: Instrument,
    pub measure: Measure,
    pub attributes: Vec<Attribute>,
}

/// The `http.request.method` attribute.
pub open spec fn method_attribute(method: Seq<char>) -> (Seq<char>, ValueModel) {
    ("http.request.method"@, ValueModel::Text(method))
}

/// The attributes of an HTTP response with status code `code`.
pub open spec fn response_attributes(method: Seq<char>, code: int) -> Seq<(Seq<char>, ValueModel)> {
    seq![
        method_attribute(method),
        ("http.response.status_code"@, ValueModel::Integer(code as i64)),
        ("http.response.status_class"@, ValueModel::Text(status_class_name(code))),
    ]
}

/// The attributes of an operation with an outcome.
pub open spec fn operation_attributes(name: Seq<char>, outcome: Seq<char>) -> Seq<(Seq<char>, ValueModel)> {
    seq![("operation.name"@, ValueModel::Text(name)), ("operation.outcome"@, ValueModel::Text(outcome))]
}

/// Whether `u` records `measure` on `instrument` with attributes `attributes`.
pub open spec fn is_update(
    u: MetricUpdate,
    instrument: Instrument,
    measure: Measure,
    attributes: Seq<(Seq<char>, ValueModel)>,
) -> bool {
    &&& u.instrument == instrument
    &&& u.measure == measure
    &&& attributes_model(u.attributes@) == attributes
}

/// An HTTP request being served.
pub struct ActiveHttpRequest {
    method: String,
    started_at: Instant,
}

impl ActiveHttpRequest {
    /// The request's method.
    pub closed spec fn method_spec(&self) -> Seq<char> {
        self.method@
    }

    /// When serving the request started.
    pub closed spec fn started_at_spec(&self) -> Instant {
        self.started_at
    }

    /// The request's method.
    pub fn method(&self) -> (r: &str)
        ensures
            r@ == self.method_spec(),
    {
        self.method.as_str()
    }

    /// When serving the request started.
    pub fn started_at(&self) -> (r: Instant)
        ensures
            r == self.started_at_spec(),
    {
        self.started_at
    }

    /// Ends the request with the status code `code`: the request leaves the
    /// active count, is counted with its method, status code and status
    /// class, and its duration since the start is recorded with the same
    /// attributes.
    pub fn finish(self, code: u16) -> (r: Vec<MetricUpdate>)
        ensures
            r@.len() == 3,
            is_update(
                r@[0],
                Instrument::HttpActiveRequests,
                Measure::Change(-1i64),
                seq![method_attribute(self.method_spec())],
            ),
            is_update(
                r@[1],
                Instrument::HttpRequests,
                Measure::Add(1),
                response_attributes(self.method_spec(), code as int),
            ),
            is_update(
                r@[2],
                Instrument::HttpRequestDuration,
                Measure::ElapsedSince(self.started_at_spec()),
                response_attributes(self.method_spec(), code as int),
            ),
    {
        let class = status_class(code);
        let ghost m = self.method@;
        let mut active = Vec::new();
        active.push(Attribute::text("http.request.method", self.method.as_str()));
        assert(attributes_model(active@) =~= seq![method_attribute(m)]);
        let mut counted = Vec::new();
        counted.push(Attribute::text("http.request.method", self.method.as_str()));
        counted.push(Attribute::integer("http.response.status_code", code as i64));
        counted.push(Attribute::text("http.response.status_class", class));
        assert(attributes_model(counted@) =~= response_attributes(m, code as int));
        let mut timed = Vec::new();
        timed.push(Attribute::text("http.request.method", self.method.as_str()));
        timed.push(Attribute::integer("http.response.status_code", code as i64));
        timed.push(Attribute::text("http.response.status_class", class));
        assert(attributes_model(timed@) =~= response_attributes(m, code as int));
        let mut r = Vec::new();
        r.push(
            MetricUpdate {
                instrument: Instrument::HttpActiveRequests,
                measure: Measure::Change(-1),
                attributes: active,
            },
        );
        r.push(
            MetricUpdate {
                instrument: Instrument::HttpRequests,
                measure: Measure::Add(1),
                attributes: counted,
            },
        );
        r.push(
            MetricUpdate {
                instrument: Instrument::HttpRequestDuration,
                measure: Measure::ElapsedSince(self.started_at),
                attributes: timed,
            },
        );
        r
    }
}

/// Starts serving a request with `method` at `now`: the request joins the
/// active count under its method.
pub fn start_http_request(method: &str, now: Instant) -> (r: (ActiveHttpRequest, MetricUpdate))
    ensures
        r.0.method_spec() == method@,
        r.0.started_at_spec() == now,
        is_update(r.1, Instrument::HttpActiveRequests, Measure::Change(1), seq![method_attribute(method@)]),
{
    let mut attributes = Vec::new();
    attributes.push(Attribute::text("http.request.method", method));
    assert(attributes_model(attributes@) =~= seq![method_attribute(method@)]);
    (
        ActiveHttpRequest { method: method.to_owned(), started_at: now },
        MetricUpdate { instrument: Instrument::HttpActiveRequests, measure: Measure::Change(1), attributes },
    )
}

/// Records that the operation `name` ran for `duration` with `outcome`: it
/// is counted once and its duration recorded, both with the operation's
/// name and outcome.
pub fn record_operation(name: &str, outcome: &str, duration: Duration) -> (r: Vec<MetricUpdate>)
    ensures
        r@.len() == 2,
        is_update(r@[0], Instrument::Operations, Measure::Add(1), operation_attributes(name@, outcome@)),
        is_update(
            r@[1],
            Instrument::OperationDuration,
            Measure::Seconds(duration),
            operation_attributes(name@, outcome@),
        ),
{
    let mut counted = Vec::new();
    counted.push(Attribute::text("operation.name", name));
    counted.push(Attribute::text("operation.outcome", outcome));
    assert(attributes_model(counted@) =~= operation_attributes(name@, outcome@));
    let mut timed = Vec::new();
    timed.push(Attribute::text("operation.name", name));
    timed.push(Attribute::text("operation.outcome", outcome));
    assert(attributes_model(timed@) =~= operation_attributes(name@, outcome@));
    let mut r = Vec::new();
    r.push(MetricUpdate { instrument: Instrument::Operations, measure: Measure::Add(1), attributes: counted });
    r.push(
        MetricUpdate {
            instrument: Instrument::OperationDuration,
            measure: Measure::Seconds(duration),
            attributes: timed,
        },
    );
    r
}

/// The attributes of the operation `name` followed by `attributes`.
pub open spec fn named_attributes(name: Seq<char>, attributes: Seq<Attribute>) -> Seq<(Seq<char>, ValueModel)> {
    seq![("operation.name"@, ValueModel::Text(name))] + attributes_model(attributes)
}

fn name_then(name: &str, attributes: &[Attribute]) -> (r: Vec<Attribute>)
    ensures
        attributes_model(r@) == named_attributes(name@, attributes@),
{
    let mut r = Vec::new();
    r.push(Attribute::text("operation.name", name));
    let mut i: usize = 0;
    while i < attributes.len()
        invariant
            i <= attributes.len(),
            attributes_model(r@) == seq![("operation.name"@, ValueModel::Text(name@))]
                + attributes_model(attributes@.take(i as int)),
        decreases attributes.len() - i,
    {
        let a = attributes[i].duplicate();
        let ghost before = r@;
        r.push(a);
        assert(attributes@.take(i + 1) =~= attributes@.take(i as int).push(attributes@[i as int]));
        assert(attributes_model(r@) =~= attributes_model(before).push(a.model()));
        assert(attributes_model(attributes@.take(i + 1)) =~= attributes_model(
            attributes@.take(i as int),
        ).push(attributes@[i as int].model()));
        i = i + 1;
    }
    assert(attributes@.take(i as int) =~= attributes@);
    r
}

/// Counts `bytes` processed by the operation `name`, with the operation's
/// name ahead of `attributes`.
pub fn add_bytes(name: &str, bytes: u64, attributes: &[Attribute]) -> (r: MetricUpdate)
    ensures
        is_update(r, Instrument::OperationBytes, Measure::Add(bytes), named_attributes(name@, attributes@)),
{
    MetricUpdate {
        instrument: Instrument::OperationBytes,
        measure: Measure::Add(bytes),
        attributes: name_then(name, attributes),
    }
}

/// Counts `count` objects processed by the operation `name`, with the
/// operation's name ahead of `attributes`.
pub fn add_count(name: &str, count: u64, attributes: &[Attribute]) -> (r: MetricUpdate)
    ensures
        is_update(r, Instrument::Operations, Measure::Add(count), named_attributes(name@, attributes@)),
{
    MetricUpdate {
        instrument: Instrument::Operations,
        measure: Measure::Add(count),
        attributes: name_then(name, attributes),
    }
}

/// A request that starts and then finishes leaves the active-request count
/// where it was: finishing takes back, under the same attributes, exactly
/// what starting added.
pub proof fn lemma_active_requests_balance(
    method: &str,
    now: Instant,
    started: (ActiveHttpRequest, MetricUpdate),
    finished: Vec<MetricUpdate>,
)
    requires
        started.0.method_spec() == method@,
        is_update(
            started.1,
            Instrument::HttpActiveRequests,
            Measure::Change(1),
            seq![method_attribute(method@)],
        ),
        finished@.len() == 3,
        is_update(
            finished@[0],
            Instrument::HttpActiveRequests,
            Measure::Change(-1i64),
            seq![method_attribute(started.0.method_spec())],
        ),
    ensures
        finished@[0].instrument == started.1.instrument,
        attributes_model(finished@[0].attributes@) == attributes_model(started.1.attributes@),
        started.1.measure matches Measure::Change(up) && finished@[0].measure matches Measure::Change(
            down,
        ) && up + down == 0,
{
}

} // verus!
