use attic_logic::telemetry::{
    otel_filter_directives, plan_telemetry, protocol_for, select_otlp_protocol,
    service_name_configured, shutdown_outcome, telemetry_disabled, OtlpProtocol, Signal,
    TelemetryEnv, TelemetryError, TelemetryPlan,
};

fn environment() -> TelemetryEnv {
    TelemetryEnv {
        sdk_disabled: None,
        service_name: None,
        resource_attributes: None,
        common_protocol: None,
        traces_protocol: None,
        logs_protocol: None,
        metrics_protocol: None,
    }
}

#[test]
fn defaults_to_http_protobuf() {
    assert_eq!(
        select_otlp_protocol(None).unwrap(),
        OtlpProtocol::HttpProtobuf
    );
}

#[test]
fn supports_http_protobuf() {
    assert_eq!(
        select_otlp_protocol(Some("http/protobuf")).unwrap(),
        OtlpProtocol::HttpProtobuf
    );
}

#[test]
fn supports_grpc() {
    assert_eq!(
        select_otlp_protocol(Some("grpc")).unwrap(),
        OtlpProtocol::Grpc
    );
}

#[test]
fn rejects_unsupported_protocols() {
    let error = select_otlp_protocol(Some("http/json")).unwrap_err();

    assert!(error.message().contains("http/json"));
}

#[test]
fn unsupported_protocol_message_is_exact() {
    let error = select_otlp_protocol(Some("http/json")).unwrap_err();
    assert_eq!(
        error.message(),
        "unsupported OTLP protocol \"http/json\"; expected \"http/protobuf\" or \"grpc\""
    );
    match error {
        TelemetryError::UnsupportedProtocol { protocol } => assert_eq!(protocol, "http/json"),
        other => panic!("unexpected error {:?}", other),
    }
}

#[test]
fn protocol_names_are_case_sensitive() {
    assert!(select_otlp_protocol(Some("GRPC")).is_err());
    assert!(select_otlp_protocol(Some("")).is_err());
    assert!(select_otlp_protocol(Some(" grpc")).is_err());
}

#[test]
fn signal_setting_takes_precedence() {
    assert_eq!(
        protocol_for(Some("grpc"), Some("http/protobuf")).unwrap(),
        OtlpProtocol::Grpc
    );
    assert_eq!(
        protocol_for(None, Some("grpc")).unwrap(),
        OtlpProtocol::Grpc
    );
    assert_eq!(
        protocol_for(None, None).unwrap(),
        OtlpProtocol::HttpProtobuf
    );
    assert!(protocol_for(Some("bogus"), Some("grpc")).is_err());
}

#[test]
fn signal_protocol_variables() {
    assert_eq!(
        Signal::Traces.protocol_variable(),
        "OTEL_EXPORTER_OTLP_TRACES_PROTOCOL"
    );
    assert_eq!(
        Signal::Logs.protocol_variable(),
        "OTEL_EXPORTER_OTLP_LOGS_PROTOCOL"
    );
    assert_eq!(
        Signal::Metrics.protocol_variable(),
        "OTEL_EXPORTER_OTLP_METRICS_PROTOCOL"
    );
}

#[test]
fn disabled_only_by_true_in_any_case() {
    assert!(telemetry_disabled(Some("true")));
    assert!(telemetry_disabled(Some("TRUE")));
    assert!(telemetry_disabled(Some("True")));
    assert!(!telemetry_disabled(Some("false")));
    assert!(!telemetry_disabled(Some("1")));
    assert!(!telemetry_disabled(Some(" true")));
    assert!(!telemetry_disabled(None));
}

#[test]
fn service_name_from_variable() {
    assert!(service_name_configured(Some("cache"), None));
    assert!(!service_name_configured(Some(""), None));
    assert!(!service_name_configured(None, None));
}

#[test]
fn service_name_from_resource_attributes() {
    assert!(service_name_configured(
        None,
        Some("service.namespace=cache,service.name=atticd-prod")
    ));
    assert!(service_name_configured(None, Some(" service.name = x ")));
    assert!(!service_name_configured(None, Some("service.name=  ")));
    assert!(!service_name_configured(None, Some("service.name")));
    assert!(!service_name_configured(
        None,
        Some("service.namespace=cache,deployment.environment.name=production")
    ));
    assert!(!service_name_configured(None, Some("a=service.name=x")));
    assert!(service_name_configured(None, Some("service.name=a=b")));
    assert!(service_name_configured(Some(""), Some(",,service.name=x")));
}

#[test]
fn shutdown_without_failures_succeeds() {
    assert!(shutdown_outcome(None, None, None).is_ok());
}

#[test]
fn shutdown_failures_are_listed_in_order() {
    let error = shutdown_outcome(
        Some("timed out".to_string()),
        None,
        Some("channel closed".to_string()),
    )
    .unwrap_err();
    assert_eq!(
        error.message(),
        "failed to shut down OpenTelemetry: tracer provider: timed out; meter provider: channel closed"
    );
    let error = shutdown_outcome(None, Some("x".to_string()), None).unwrap_err();
    assert_eq!(
        error.message(),
        "failed to shut down OpenTelemetry: logger provider: x"
    );
}

#[test]
fn exporter_transports_are_filtered() {
    assert_eq!(
        otel_filter_directives(),
        vec!["hyper=off", "tonic=off", "h2=off", "reqwest=off"]
    );
}

#[test]
fn disabled_export_reads_no_transport() {
    let mut env = environment();
    env.sdk_disabled = Some("True".to_string());
    env.common_protocol = Some("bogus".to_string());
    assert!(matches!(plan_telemetry(&env), TelemetryPlan::LocalOnly));
}

#[test]
fn export_plan_names_service_and_transports() {
    let mut env = environment();
    env.common_protocol = Some("grpc".to_string());
    env.logs_protocol = Some("http/protobuf".to_string());
    env.traces_protocol = Some("http/json".to_string());
    match plan_telemetry(&env) {
        TelemetryPlan::Export { default_service_name, metrics, logs, traces } => {
            assert_eq!(default_service_name, Some("atticd"));
            assert_eq!(metrics.unwrap(), OtlpProtocol::Grpc);
            assert_eq!(logs.unwrap(), OtlpProtocol::HttpProtobuf);
            assert!(traces.unwrap_err().message().contains("http/json"));
        }
        TelemetryPlan::LocalOnly => panic!("export expected"),
    }
    env.service_name = Some("cache-eu".to_string());
    env.sdk_disabled = Some("false".to_string());
    match plan_telemetry(&env) {
        TelemetryPlan::Export { default_service_name, .. } => assert_eq!(default_service_name, None),
        TelemetryPlan::LocalOnly => panic!("export expected"),
    }
}
