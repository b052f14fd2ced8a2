//! OpenTelemetry configuration decisions: which OTLP transport each signal
//! uses, whether export is switched off, whether the deployment names the
//! service itself, and how shutdown failures are reported.

use vstd::prelude::*;
use vstd::string::StringExecFns;

use crate::text::{
    opt_view, chars_of, concat_strs, debug_quoted, debug_text, eq_ignore_case, eq_ignoring_ascii_case, join,
    joined, lemma_pieces_around_separator, lemma_pieces_without_separator, pieces, split_on, str_eq,
    substring, trim, trim_bounds,
};

verus! {

broadcast use vstd::string::group_string_axioms;

/// The OTLP transport used when none is configured.
pub const DEFAULT_PROTOCOL: &'static str = "http/protobuf";

/// The variable that switches all export off when set to `true`.
pub const OTEL_SDK_DISABLED: &'static str = "OTEL_SDK_DISABLED";

/// The variable that chooses the transport of every signal.
pub const OTLP_PROTOCOL: &'static str = "OTEL_EXPORTER_OTLP_PROTOCOL";

/// The variable that names the service.
pub const OTEL_SERVICE_NAME: &'static str = "OTEL_SERVICE_NAME";

/// The variable that lists resource attributes as `key=value` pairs.
pub const OTEL_RESOURCE_ATTRIBUTES: &'static str = "OTEL_RESOURCE_ATTRIBUTES";

/// The service name reported when the deployment sets none.
pub const DEFAULT_SERVICE_NAME: &'static str = "atticd";

/// The level of the filter in front of exported logs and traces.
pub const OTEL_FILTER_LEVEL: &'static str = "info";

/// An OTLP transport.
#[derive(Clone, Copy, Debug, PartialEq, Eq, Structural)]
pub enum OtlpProtocol {
    /// OTLP over HTTP with protobuf bodies.
    HttpProtobuf,
    /// OTLP over gRPC.
    Grpc,
}

/// A telemetry signal that is exported on its own channel.
#[derive(Clone, Copy, Debug, PartialEq, Eq, Structural)]
pub enum Signal {
    Traces,
    Logs,
    Metrics,
}

/// Errors of telemetry setup and shutdown.
#[derive(Debug)]
pub enum TelemetryError {
    /// A configured transport is neither `http/protobuf` nor `grpc`.
    UnsupportedProtocol { protocol: String },
    /// Some providers failed to shut down; one description each.
    ShutdownFailed { failures: Vec<String> },
}

/// The transport that a transport name selects, if any.
pub open spec fn protocol_named(name: Seq<char>) -> Option<OtlpProtocol> {
    if name == "http/protobuf"@ {
        Some(OtlpProtocol::HttpProtobuf)
    } else if name == "grpc"@ {
        Some(OtlpProtocol::Grpc)
    } else {
        None
    }
}

/// The transport name in force: the configured one, else the default.
pub open spec fn requested_protocol(protocol: Option<&str>) -> Seq<char> {
    match protocol {
        Some(p) => p@,
        None => "http/protobuf"@,
    }
}

/// Whether `r` is what selecting the transport named `name` gives: the
/// transport, or the error that names `name`.
pub open spec fn selects(name: Seq<char>, r: Result<OtlpProtocol, TelemetryError>) -> bool {
    match protocol_named(name) {
        Some(p) => r == Ok::<OtlpProtocol, TelemetryError>(p),
        None => r matches Err(TelemetryError::UnsupportedProtocol { protocol }) && protocol@ == name,
    }
}

/// The text of an error, as it is reported.
pub open spec fn error_message(e: TelemetryError) -> Seq<char> {
    match e {
        TelemetryError::UnsupportedProtocol { protocol } => "unsupported OTLP protocol "@
            + debug_text(protocol@) + "; expected \"http/protobuf\" or \"grpc\""@,
        TelemetryError::ShutdownFailed { failures } => "failed to shut down OpenTelemetry: "@
            + joined(failures.deep_view(), "; "@),
    }
}

impl TelemetryError {
    /// The text of the error, as it is reported.
    pub fn message(&self) -> (r: String)
        ensures
            r@ == error_message(*self),
    {
        match self {
            TelemetryError::UnsupportedProtocol { protocol } => {
                let mut r = String::from_str("unsupported OTLP protocol ");
                let quoted = debug_quoted(protocol.as_str());
                r.append(quoted.as_str());
                r.append("; expected \"http/protobuf\" or \"grpc\"");
                r
            },
            TelemetryError::ShutdownFailed { failures } => {
                let mut r = String::from_str("failed to shut down OpenTelemetry: ");
                let all = join(failures, "; ");
                r.append(all.as_str());
                r
            },
        }
    }
}

/// Chooses the OTLP transport: `http/protobuf` when none is configured,
/// otherwise the one named, and an error naming it when it is neither
/// `http/protobuf` nor `grpc`.
pub fn select_otlp_protocol(protocol: Option<&str>) -> (r: Result<OtlpProtocol, TelemetryError>)
    ensures
        selects(requested_protocol(protocol), r),
{
    let name: &str = match protocol {
        Some(p) => p,
        None => DEFAULT_PROTOCOL,
    };
    assert(name@ == requested_protocol(protocol));
    if str_eq(name, "http/protobuf") {
        Ok(OtlpProtocol::HttpProtobuf)
    } else if str_eq(name, "grpc") {
        Ok(OtlpProtocol::Grpc)
    } else {
        Err(TelemetryError::UnsupportedProtocol { protocol: name.to_owned() })
    }
}

impl Signal {
    /// The variable that chooses this signal's transport, ahead of
    /// `OTEL_EXPORTER_OTLP_PROTOCOL`.
    pub fn protocol_variable(self) -> (r: &'static str)
        ensures
            r@ == "OTEL_EXPORTER_OTLP_"@ + self.name_spec() + "_PROTOCOL"@,
    {
        proof {
            reveal_strlit("OTEL_EXPORTER_OTLP_TRACES_PROTOCOL");
            reveal_strlit("OTEL_EXPORTER_OTLP_LOGS_PROTOCOL");
            reveal_strlit("OTEL_EXPORTER_OTLP_METRICS_PROTOCOL");
            reveal_strlit("OTEL_EXPORTER_OTLP_");
            reveal_strlit("_PROTOCOL");
            reveal_strlit("TRACES");
            reveal_strlit("LOGS");
            reveal_strlit("METRICS");
        }
        let r = match self {
            Signal::Traces => "OTEL_EXPORTER_OTLP_TRACES_PROTOCOL",
            Signal::Logs => "OTEL_EXPORTER_OTLP_LOGS_PROTOCOL",
            Signal::Metrics => "OTEL_EXPORTER_OTLP_METRICS_PROTOCOL",
        };
        assert(r@ =~= "OTEL_EXPORTER_OTLP_"@ + self.name_spec() + "_PROTOCOL"@);
        r
    }

    /// The signal's name in variable names.
    pub open spec fn name_spec(self) -> Seq<char> {
        match self {
            Signal::Traces => "TRACES"@,
            Signal::Logs => "LOGS"@,
            Signal::Metrics => "METRICS"@,
        }
    }
}

/// Chooses a signal's transport: its own setting when there is one, else the
/// common setting, else the default.
pub fn protocol_for(signal_protocol: Option<&str>, common_protocol: Option<&str>) -> (r: Result<
    OtlpProtocol,
    TelemetryError,
>)
    ensures
        selects(
            requested_protocol(
                if signal_protocol is Some {
                    signal_protocol
                } else {
                    common_protocol
                },
            ),
            r,
        ),
{
    match signal_protocol {
        Some(p) => select_otlp_protocol(Some(p)),
        None => select_otlp_protocol(common_protocol),
    }
}

/// Whether export is switched off: `OTEL_SDK_DISABLED` is `true` in any
/// ASCII case.
pub open spec fn disabled_by(value: Option<&str>) -> bool {
    value matches Some(v) && eq_ignoring_ascii_case(v@, "true"@)
}

/// Whether the value of `OTEL_SDK_DISABLED` switches export off.
pub fn telemetry_disabled(value: Option<&str>) -> (r: bool)
    ensures
        r == disabled_by(value),
{
    match value {
        Some(v) => eq_ignore_case(v, "true"),
        None => false,
    }
}

/// Whether a `key=value` resource attribute sets a non-blank
/// `service.name`: the key is what precedes the first `=`, and both sides
/// count without surrounding whitespace.
pub open spec fn sets_service_name(attribute: Seq<char>) -> bool {
    exists|k: int|
        0 <= k < attribute.len() && #[trigger] attribute[k] == '=' && (forall|j: int|
            0 <= j < k ==> attribute[j] != '=') && trim(attribute.take(k)) == "service.name"@
            && trim(attribute.skip(k + 1)).len() > 0
}

/// Whether the deployment names the service: `OTEL_SERVICE_NAME` is not
/// empty, or one of the comma-separated `OTEL_RESOURCE_ATTRIBUTES` sets
/// `service.name`.
pub open spec fn service_named(service_name: Option<&str>, resource_attributes: Option<&str>) -> bool {
    let by_name = match service_name {
        Some(n) => n@.len() > 0,
        None => false,
    };
    let by_attribute = match resource_attributes {
        Some(a) => attributes_set_service_name(a@),
        None => false,
    };
    by_name || by_attribute
}

/// Whether one of the comma-separated attributes of `attributes` sets
/// `service.name`.
pub open spec fn attributes_set_service_name(attributes: Seq<char>) -> bool {
    exists|i: int|
        0 <= i < pieces(attributes, ',').len() && sets_service_name(
            #[trigger] pieces(attributes, ',')[i],
        )
}

/// Every comma-separated attribute counts, wherever it stands: a list that
/// joins two lists with a comma sets `service.name` exactly when one of
/// the two does.
pub proof fn law_any_attribute_names_service(first: Seq<char>, rest: Seq<char>)
    ensures
        attributes_set_service_name(first + seq![','] + rest) == (attributes_set_service_name(first)
            || attributes_set_service_name(rest)),
{
    let whole = first + seq![','] + rest;
    let p = pieces(first, ',');
    let q = pieces(rest, ',');
    lemma_pieces_around_separator(first, rest, ',', seq![]);
    assert(pieces(whole, ',') == p + q);
    if attributes_set_service_name(whole) {
        let i = choose|i: int|
            0 <= i < pieces(whole, ',').len() && sets_service_name(#[trigger] pieces(whole, ',')[i]);
        if i < p.len() {
            assert(pieces(whole, ',')[i] == p[i]);
        } else {
            assert(pieces(whole, ',')[i] == q[i - p.len()]);
        }
    }
    if attributes_set_service_name(first) {
        let i = choose|i: int| 0 <= i < p.len() && sets_service_name(#[trigger] p[i]);
        assert(pieces(whole, ',')[i] == p[i]);
    }
    if attributes_set_service_name(rest) {
        let i = choose|i: int| 0 <= i < q.len() && sets_service_name(#[trigger] q[i]);
        assert(pieces(whole, ',')[p.len() + i] == q[i]);
    }
}

/// An attribute `key=value` whose key holds no `=` sets `service.name`
/// exactly when the key is `service.name` and the value is not blank, both
/// taken without surrounding whitespace.
pub proof fn law_attribute_key_and_value(key: Seq<char>, value: Seq<char>)
    requires
        !key.contains('='),
    ensures
        sets_service_name(key + seq!['='] + value) == (trim(key) == "service.name"@ && trim(value).len()
            > 0),
{
    let a = key + seq!['='] + value;
    let k = key.len() as int;
    assert(a.take(k) =~= key);
    assert(a.skip(k + 1) =~= value);
    assert(a[k] == '=');
    assert forall|j: int| 0 <= j < k implies a[j] != '=' by {
        assert(a[j] == key[j]);
        if key[j] == '=' {
            assert(key.contains(key[j]));
        }
    }
    if sets_service_name(a) {
        let k2 = choose|k2: int|
            0 <= k2 < a.len() && #[trigger] a[k2] == '=' && (forall|j: int| 0 <= j < k2 ==> a[j] != '=')
                && trim(a.take(k2)) == "service.name"@ && trim(a.skip(k2 + 1)).len() > 0;
        assert(k2 == k);
    }
}

/// A list without commas is a single attribute: it sets `service.name`
/// exactly when that attribute does.
pub proof fn law_single_attribute_names_service(attribute: Seq<char>)
    requires
        !attribute.contains(','),
    ensures
        attributes_set_service_name(attribute) == sets_service_name(attribute),
{
    lemma_pieces_without_separator(attribute, ',', seq![]);
    assert(seq![] + attribute =~= attribute);
    assert(pieces(attribute, ',') == seq![attribute]);
    if sets_service_name(attribute) {
        assert(pieces(attribute, ',')[0] == attribute);
    }
}

fn attribute_sets_service_name(attribute: &str) -> (r: bool)
    ensures
        r == sets_service_name(attribute@),
{
    let cs = chars_of(attribute);
    let n = cs.len();
    let mut k: usize = 0;
    while k < n && cs[k] != '='
        invariant
            cs@ == attribute@,
            n == cs@.len(),
            k <= n,
            forall|j: int| 0 <= j < k ==> cs@[j] != '=',
        decreases n - k,
    {
        k = k + 1;
    }
    if k == n {
        assert(!sets_service_name(attribute@));
        return false;
    }
    let (lo, hi) = trim_bounds(&cs, 0, k);
    let (vlo, vhi) = trim_bounds(&cs, k + 1, n);
    assert(cs@.subrange(0, k as int) =~= attribute@.take(k as int));
    assert(cs@.subrange(k + 1, n as int) =~= attribute@.skip(k + 1));
    let key = substring(attribute, lo, hi);
    let r = str_eq(key.as_str(), "service.name") && vlo < vhi;
    assert(r == sets_service_name(attribute@)) by {
        if sets_service_name(attribute@) {
            let k2 = choose|k2: int|
                0 <= k2 < attribute@.len() && #[trigger] attribute@[k2] == '=' && (forall|j: int|
                    0 <= j < k2 ==> attribute@[j] != '=') && trim(attribute@.take(k2))
                    == "service.name"@ && trim(attribute@.skip(k2 + 1)).len() > 0;
            assert(k2 == k);
        }
    }
    r
}

/// Whether the deployment names the service itself.
pub fn service_name_configured(service_name: Option<&str>, resource_attributes: Option<&str>) -> (r:
    bool)
    ensures
        r == service_named(service_name, resource_attributes),
{
    if let Some(n) = service_name {
        if !n.is_empty() {
            return true;
        }
    }
    match resource_attributes {
        None => false,
        Some(a) => {
            let parts = split_on(a, ',');
            let mut i: usize = 0;
            while i < parts.len()
                invariant
                    resource_attributes == Some(a),
                    parts.deep_view() == pieces(a@, ','),
                    i <= parts.len(),
                    forall|j: int| 0 <= j < i ==> !sets_service_name(#[trigger] pieces(a@, ',')[j]),
                decreases parts.len() - i,
            {
                assert(parts.deep_view()[i as int] == parts[i as int]@);
                if attribute_sets_service_name(parts[i].as_str()) {
                    assert(sets_service_name(pieces(a@, ',')[i as int]));
                    return true;
                }
                i = i + 1;
            }
            false
        },
    }
}

/// The OpenTelemetry environment that telemetry setup reads.
#[derive(Debug)]
pub struct TelemetryEnv {
    /// `OTEL_SDK_DISABLED`.
    pub sdk_disabled: Option<String>,
    /// `OTEL_SERVICE_NAME`.
    pub service_name: Option<String>,
    /// `OTEL_RESOURCE_ATTRIBUTES`.
    pub resource_attributes: Option<String>,
    /// `OTEL_EXPORTER_OTLP_PROTOCOL`.
    pub common_protocol: Option<String>,
    /// `OTEL_EXPORTER_OTLP_TRACES_PROTOCOL`.
    pub traces_protocol: Option<String>,
    /// `OTEL_EXPORTER_OTLP_LOGS_PROTOCOL`.
    pub logs_protocol: Option<String>,
    /// `OTEL_EXPORTER_OTLP_METRICS_PROTOCOL`.
    pub metrics_protocol: Option<String>,
}

/// What telemetry setup does.
#[derive(Debug)]
pub enum TelemetryPlan {
    /// Formatted local logs only; no transport setting is consulted.
    LocalOnly,
    /// Export over OTLP. The exporters are built metrics first, then logs,
    /// then traces, each failing with its transport's error if it has one.
    Export {
        /// The service name to report, when the deployment names none.
        default_service_name: Option<&'static str>,
        metrics: Result<OtlpProtocol, TelemetryError>,
        logs: Result<OtlpProtocol, TelemetryError>,
        traces: Result<OtlpProtocol, TelemetryError>,
    },
}

/// The transport name in force for a signal: its own setting, else the
/// common one, else the default.
pub open spec fn requested_for(signal: Option<Seq<char>>, common: Option<Seq<char>>) -> Seq<char> {
    match signal {
        Some(p) => p,
        None => match common {
            Some(p) => p,
            None => "http/protobuf"@,
        },
    }
}

/// Whether the value of `OTEL_SDK_DISABLED` switches export off.
pub open spec fn disabled_text(value: Option<Seq<char>>) -> bool {
    value matches Some(v) && eq_ignoring_ascii_case(v, "true"@)
}

/// Whether the deployment names the service.
pub open spec fn service_named_text(name: Option<Seq<char>>, attributes: Option<Seq<char>>) -> bool {
    let by_name = match name {
        Some(n) => n.len() > 0,
        None => false,
    };
    let by_attribute = match attributes {
        Some(a) => attributes_set_service_name(a),
        None => false,
    };
    by_name || by_attribute
}

/// Whether `plan` exports over OTLP as `env` asks: with `atticd` as the
/// service name unless the deployment names one, and each signal with the
/// transport its settings select.
pub open spec fn exports_as(env: TelemetryEnv, plan: TelemetryPlan) -> bool {
    match plan {
        TelemetryPlan::Export { default_service_name, metrics, logs, traces } => {
            &&& if service_named_text(opt_view(env.service_name), opt_view(env.resource_attributes)) {
                default_service_name is None
            } else {
                default_service_name matches Some(n) && n@ == "atticd"@
            }
            &&& selects(requested_for(opt_view(env.metrics_protocol), opt_view(env.common_protocol)), metrics)
            &&& selects(requested_for(opt_view(env.logs_protocol), opt_view(env.common_protocol)), logs)
            &&& selects(requested_for(opt_view(env.traces_protocol), opt_view(env.common_protocol)), traces)
        },
        TelemetryPlan::LocalOnly => false,
    }
}

fn borrow_text(value: &Option<String>) -> (r: Option<&str>)
    ensures
        match r {
            Some(s) => opt_view(*value) == Some(s@),
            None => value is None,
        },
{
    match value {
        Some(s) => Some(s.as_str()),
        None => None,
    }
}

/// Decides telemetry setup from the environment: local logs only when
/// export is switched off; otherwise export, with `atticd` as the service
/// name unless the deployment names one, and each signal's transport.
pub fn plan_telemetry(env: &TelemetryEnv) -> (r: TelemetryPlan)
    ensures
        disabled_text(opt_view(env.sdk_disabled)) ==> r is LocalOnly,
        !disabled_text(opt_view(env.sdk_disabled)) ==> exports_as(*env, r),
{
    if telemetry_disabled(borrow_text(&env.sdk_disabled)) {
        return TelemetryPlan::LocalOnly;
    }
    let named = service_name_configured(
        borrow_text(&env.service_name),
        borrow_text(&env.resource_attributes),
    );
    let default_service_name = if named {
        None
    } else {
        Some(DEFAULT_SERVICE_NAME)
    };
    let common = borrow_text(&env.common_protocol);
    let metrics = protocol_for(borrow_text(&env.metrics_protocol), common);
    let logs = protocol_for(borrow_text(&env.logs_protocol), common);
    let traces = protocol_for(borrow_text(&env.traces_protocol), common);
    TelemetryPlan::Export { default_service_name, metrics, logs, traces }
}

impl TelemetryEnv {
    /// The setting of the variable that chooses `signal`'s own transport.
    pub open spec fn signal_setting(self, signal: Signal) -> Option<Seq<char>> {
        match signal {
            Signal::Traces => opt_view(self.traces_protocol),
            Signal::Logs => opt_view(self.logs_protocol),
            Signal::Metrics => opt_view(self.metrics_protocol),
        }
    }
}

impl TelemetryPlan {
    /// The transport that the plan gives `signal`, when it exports.
    pub open spec fn transport_of(self, signal: Signal) -> Option<Result<OtlpProtocol, TelemetryError>> {
        match self {
            TelemetryPlan::Export { metrics, logs, traces, .. } => Some(
                match signal {
                    Signal::Traces => traces,
                    Signal::Logs => logs,
                    Signal::Metrics => metrics,
                },
            ),
            TelemetryPlan::LocalOnly => None,
        }
    }
}

/// Each signal's transport follows its own variable ahead of
/// `OTEL_EXPORTER_OTLP_PROTOCOL`, and that variable ahead of the default
/// `http/protobuf`: the setting in force is the signal's own one when it is
/// set, else the common one; `grpc` gives gRPC, `http/protobuf` or no
/// setting at all gives HTTP, and any other name is refused with an error
/// that names it. So with only `OTEL_EXPORTER_OTLP_METRICS_PROTOCOL=grpc`,
/// metrics go over gRPC and logs and traces over HTTP.
pub proof fn law_signal_setting_first(env: TelemetryEnv, plan: TelemetryPlan, signal: Signal)
    requires
        !disabled_text(opt_view(env.sdk_disabled)),
        exports_as(env, plan),
    ensures
        ({
            let setting = if env.signal_setting(signal) is Some {
                env.signal_setting(signal)
            } else {
                opt_view(env.common_protocol)
            };
            let t = plan.transport_of(signal);
            &&& setting is None ==> t == Some(Ok::<OtlpProtocol, TelemetryError>(OtlpProtocol::HttpProtobuf))
            &&& setting == Some("grpc"@) ==> t == Some(Ok::<OtlpProtocol, TelemetryError>(OtlpProtocol::Grpc))
            &&& setting == Some("http/protobuf"@) ==> t == Some(
                Ok::<OtlpProtocol, TelemetryError>(OtlpProtocol::HttpProtobuf),
            )
            &&& setting matches Some(name) ==> ((name != "grpc"@ && name != "http/protobuf"@) ==> (
            t matches Some(Err(TelemetryError::UnsupportedProtocol { protocol })) && protocol@ == name))
        }),
{
    reveal_strlit("grpc");
    reveal_strlit("http/protobuf");
    assert("grpc"@ != "http/protobuf"@) by {
        assert("grpc"@.len() != "http/protobuf"@.len());
    }
}

/// `atticd` is imposed only on a deployment that names no service: a
/// non-empty `OTEL_SERVICE_NAME`, or an attribute of
/// `OTEL_RESOURCE_ATTRIBUTES` that sets `service.name`, leaves the name to
/// the deployment; with neither variable set the service is `atticd`.
pub proof fn law_default_service_name(env: TelemetryEnv, plan: TelemetryPlan)
    requires
        !disabled_text(opt_view(env.sdk_disabled)),
        exports_as(env, plan),
    ensures
        opt_view(env.service_name) matches Some(n) && n.len() > 0 ==> plan matches TelemetryPlan::Export {
            default_service_name: None,
            ..
        },
        opt_view(env.resource_attributes) matches Some(a) && attributes_set_service_name(a)
            ==> plan matches TelemetryPlan::Export { default_service_name: None, .. },
        env.service_name is None && env.resource_attributes is None ==> (plan matches TelemetryPlan::Export {
            default_service_name: Some(n),
            ..
        } && n@ == "atticd"@),
{
}

/// How a provider's failed shutdown is described.
pub open spec fn failure_line(provider: Seq<char>, error: Option<String>) -> Seq<Seq<char>> {
    match error {
        Some(e) => seq![provider + ": "@ + e@],
        None => seq![],
    }
}

/// The descriptions of the failed shutdowns, tracer first, then logger,
/// then meter.
pub open spec fn shutdown_failures(
    tracer: Option<String>,
    logger: Option<String>,
    meter: Option<String>,
) -> Seq<Seq<char>> {
    failure_line("tracer provider"@, tracer) + failure_line("logger provider"@, logger)
        + failure_line("meter provider"@, meter)
}

fn push_failure(failures: &mut Vec<String>, provider: &str, error: Option<String>)
    ensures
        final(failures).deep_view() == old(failures).deep_view() + failure_line(provider@, error),
{
    let ghost before = failures.deep_view();
    if let Some(e) = error {
        proof {
            reveal_strlit(": ");
        }
        let mut line = concat_strs(provider, ": ");
        line.append(e.as_str());
        failures.push(line);
        assert(failures.deep_view() =~= before + failure_line(provider@, Some(e)));
    } else {
        assert(failures.deep_view() =~= before + failure_line(provider@, error));
    }
}

/// The outcome of shutting the providers down, given the error text of each
/// provider whose shutdown failed: success when none failed, else one error
/// that lists every failure.
pub fn shutdown_outcome(tracer: Option<String>, logger: Option<String>, meter: Option<String>) -> (r:
    Result<(), TelemetryError>)
    ensures
        r is Ok <==> (tracer is None && logger is None && meter is None),
        r matches Err(e) ==> e matches TelemetryError::ShutdownFailed { failures }
            && failures.deep_view() == shutdown_failures(tracer, logger, meter),
{
    let ghost (t, l, m) = (tracer, logger, meter);
    let mut failures: Vec<String> = Vec::new();
    push_failure(&mut failures, "tracer provider", tracer);
    push_failure(&mut failures, "logger provider", logger);
    push_failure(&mut failures, "meter provider", meter);
    assert(failures.deep_view() =~= shutdown_failures(t, l, m));
    if failures.len() == 0 {
        Ok(())
    } else {
        Err(TelemetryError::ShutdownFailed { failures })
    }
}

/// The targets whose logs and traces are not exported, so that the
/// exporters' own transports do not feed back into what they export.
pub fn otel_filter_directives() -> (r: Vec<&'static str>)
    ensures
        r@.len() == 4,
        r@[0]@ == "hyper=off"@,
        r@[1]@ == "tonic=off"@,
        r@[2]@ == "h2=off"@,
        r@[3]@ == "reqwest=off"@,
{
    let mut r: Vec<&'static str> = Vec::new();
    r.push("hyper=off");
    r.push("tonic=off");
    r.push("h2=off");
    r.push("reqwest=off");
    r
}

} // verus!
