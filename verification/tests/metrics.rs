use attic_logic::metrics::{
    add_bytes, add_count, record_operation, start_http_request, status_class,
    Attribute, AttributeValue, Instrument, InstrumentKind, Measure, MetricUpdate,
};
use axum::http::StatusCode;
use std::time::{Duration, Instant};

fn attrs(update: &MetricUpdate) -> Vec<(String, String)> {
    update
        .attributes
        .iter()
        .map(|a| {
            let value = match &a.value {
                AttributeValue::Text(s) => s.clone(),
                AttributeValue::Integer(i) => format!("#{i}"),
            };
            (a.key.clone(), value)
        })
        .collect()
}

fn pairs(items: &[(&str, &str)]) -> Vec<(String, String)> {
    items
        .iter()
        .map(|(k, v)| (k.to_string(), v.to_string()))
        .collect()
}

#[test]
fn groups_http_status_by_class() {
    assert_eq!(status_class(StatusCode::OK.as_u16()), "2xx");
    assert_eq!(status_class(StatusCode::NOT_FOUND.as_u16()), "4xx");
    assert_eq!(status_class(StatusCode::INTERNAL_SERVER_ERROR.as_u16()), "5xx");
}

#[test]
fn status_classes_of_codes() {
    assert_eq!(status_class(StatusCode::CONTINUE.as_u16()), "1xx");
    assert_eq!(status_class(StatusCode::MOVED_PERMANENTLY.as_u16()), "3xx");
    assert_eq!(status_class(799), "unknown");
    assert_eq!(status_class(100), "1xx");
    assert_eq!(status_class(199), "1xx");
    assert_eq!(status_class(599), "5xx");
    assert_eq!(status_class(600), "unknown");
    assert_eq!(status_class(99), "unknown");
}

#[test]
fn request_start_and_finish_balance_active_count() {
    let now = Instant::now();
    let (request, started) = start_http_request("GET", now);
    assert_eq!(request.method(), "GET");
    assert_eq!(request.started_at(), now);
    assert_eq!(started.instrument, Instrument::HttpActiveRequests);
    assert!(matches!(started.measure, Measure::Change(1)));
    assert_eq!(attrs(&started), pairs(&[("http.request.method", "GET")]));

    let finished = request.finish(StatusCode::NOT_FOUND.as_u16());
    assert_eq!(finished.len(), 3);
    assert_eq!(finished[0].instrument, Instrument::HttpActiveRequests);
    assert!(matches!(finished[0].measure, Measure::Change(-1)));
    assert_eq!(attrs(&finished[0]), attrs(&started));

    let response = pairs(&[
        ("http.request.method", "GET"),
        ("http.response.status_code", "#404"),
        ("http.response.status_class", "4xx"),
    ]);
    assert_eq!(finished[1].instrument, Instrument::HttpRequests);
    assert!(matches!(finished[1].measure, Measure::Add(1)));
    assert_eq!(attrs(&finished[1]), response);
    assert_eq!(finished[2].instrument, Instrument::HttpRequestDuration);
    assert!(matches!(finished[2].measure, Measure::ElapsedSince(t) if t == now));
    assert_eq!(attrs(&finished[2]), response);
}

#[test]
fn operations_are_counted_and_timed() {
    let updates = record_operation("upload", "success", Duration::from_millis(1500));
    assert_eq!(updates.len(), 2);
    let expected = pairs(&[("operation.name", "upload"), ("operation.outcome", "success")]);
    assert_eq!(updates[0].instrument, Instrument::Operations);
    assert!(matches!(updates[0].measure, Measure::Add(1)));
    assert_eq!(attrs(&updates[0]), expected);
    assert_eq!(updates[1].instrument, Instrument::OperationDuration);
    assert!(matches!(updates[1].measure, Measure::Seconds(d) if d == Duration::from_millis(1500)));
    assert_eq!(attrs(&updates[1]), expected);
}

#[test]
fn operation_name_comes_first() {
    let extra = [
        Attribute::text("compression", "zstd"),
        Attribute::integer("level", 3),
    ];
    let bytes = add_bytes("upload", 4096, &extra);
    assert_eq!(bytes.instrument, Instrument::OperationBytes);
    assert!(matches!(bytes.measure, Measure::Add(4096)));
    assert_eq!(
        attrs(&bytes),
        pairs(&[("operation.name", "upload"), ("compression", "zstd"), ("level", "#3")])
    );
    let count = add_count("gc", 7, &[]);
    assert_eq!(count.instrument, Instrument::Operations);
    assert!(matches!(count.measure, Measure::Add(7)));
    assert_eq!(attrs(&count), pairs(&[("operation.name", "gc")]));
}

#[test]
fn instruments_are_the_documented_ones() {
    let names: Vec<&str> = Instrument::all()
        .into_iter()
        .map(|i| i.descriptor().name)
        .collect();
    assert_eq!(
        names,
        vec![
            "http.server.request.count",
            "http.server.active_requests",
            "http.server.request.duration",
            "attic.operation.count",
            "attic.operation.duration",
            "attic.operation.bytes",
        ]
    );
    let bytes = Instrument::OperationBytes.descriptor();
    assert_eq!(bytes.meter, "atticd.operations");
    assert_eq!(bytes.unit, Some("By"));
    assert_eq!(bytes.kind, InstrumentKind::Counter);
    let active = Instrument::HttpActiveRequests.descriptor();
    assert_eq!(active.meter, "atticd.http");
    assert_eq!(active.kind, InstrumentKind::UpDownCounter);
    assert_eq!(active.unit, None);
    assert_eq!(
        Instrument::HttpRequestDuration.descriptor().kind,
        InstrumentKind::Histogram
    );
}

#[test]
fn finishing_with_a_code() {
    let now = Instant::now();
    let (request, _) = start_http_request("PUT", now);
    let updates = request.finish(201);
    assert_eq!(
        attrs(&updates[1]),
        pairs(&[
            ("http.request.method", "PUT"),
            ("http.response.status_code", "#201"),
            ("http.response.status_class", "2xx"),
        ])
    );
    assert!(matches!(updates[0].measure, Measure::Change(-1)));
}
