use dev_launcher::aggregator::{LogEmission, LOG_BATCH_SIZE};
use dev_launcher::{AggregatorOutput, EventAggregator, LogEvent, ManagerEvent, StatusEvent};

fn log(n: usize) -> LogEvent {
    LogEvent {
        source: "frontend".to_string(),
        level: "normal".to_string(),
        text: format!("line {}", n),
        timestamp: "00:00:00.000".to_string(),
        project_id: "proj".to_string(),
    }
}

fn texts(e: &LogEmission) -> Vec<String> {
    match e {
        LogEmission::Single(l) => vec![l.text.clone()],
        LogEmission::Batch(v) => v.iter().map(|l| l.text.clone()).collect(),
    }
}

#[test]
fn burst_of_250_yields_two_ordered_flushes() {
    let mut agg = EventAggregator::new();
    let mut emissions: Vec<LogEmission> = Vec::new();
    for n in 0..250 {
        if let Some(e) = agg.on_log(log(n)) {
            emissions.push(e);
        }
    }
    if let Some(e) = agg.flush() {
        emissions.push(e);
    }
    assert!(emissions.len() >= 2, "250 records within one interval must flush at least twice");
    let first = texts(&emissions[0]);
    assert_eq!(first.len(), LOG_BATCH_SIZE, "the first flush holds exactly one full batch");
    let all: Vec<String> = emissions.iter().flat_map(|e| texts(e)).collect();
    let expected: Vec<String> = (0..250).map(|n| format!("line {}", n)).collect();
    assert_eq!(all, expected, "concatenated flushes reproduce the records in order");
}

#[test]
fn flush_of_one_record_is_single() {
    let mut agg = EventAggregator::new();
    assert!(agg.on_log(log(1)).is_none());
    match agg.flush() {
        Some(LogEmission::Single(l)) => assert_eq!(l.text, "line 1"),
        other => panic!("expected a single emission, got {:?}", other),
    }
}

#[test]
fn flush_of_many_records_is_one_batch() {
    let mut agg = EventAggregator::new();
    assert!(agg.on_log(log(1)).is_none());
    assert!(agg.on_log(log(2)).is_none());
    match agg.flush() {
        Some(LogEmission::Batch(v)) => {
            assert_eq!(v.len(), 2);
            assert_eq!(v[0].text, "line 1");
            assert_eq!(v[1].text, "line 2");
        }
        other => panic!("expected a batch, got {:?}", other),
    }
}

#[test]
fn flush_of_empty_queue_is_nothing() {
    let mut agg = EventAggregator::new();
    assert!(agg.flush().is_none());
}

#[test]
fn small_batch_size_flushes_early() {
    let mut agg = EventAggregator::with_batch_size(2);
    assert!(agg.on_log(log(1)).is_none());
    match agg.on_log(log(2)) {
        Some(LogEmission::Batch(v)) => assert_eq!(v.len(), 2),
        other => panic!("expected a batch at the limit, got {:?}", other),
    }
    assert!(agg.flush().is_none(), "the queue is empty after a forced flush");
}

#[test]
fn status_events_bypass_the_queue() {
    let mut agg = EventAggregator::new();
    assert!(agg.on_log(log(1)).is_none());
    let snapshot = StatusEvent { services: Vec::new() };
    match agg.on_event(ManagerEvent::Status(snapshot)) {
        AggregatorOutput::Status(s) => assert!(s.services.is_empty()),
        other => panic!("expected immediate status forwarding, got {:?}", other),
    }
    match agg.flush() {
        Some(LogEmission::Single(l)) => {
            assert_eq!(l.text, "line 1", "queued logs are untouched by a status event")
        }
        other => panic!("expected the queued log, got {:?}", other),
    }
}

#[test]
fn url_events_bypass_the_queue() {
    let mut agg = EventAggregator::new();
    match agg.on_event(ManagerEvent::ServiceUrl {
        service_id: "proj:front".to_string(),
        url: "http://localhost:5173/".to_string(),
    }) {
        AggregatorOutput::Url { service_id, url } => {
            assert_eq!(service_id, "proj:front");
            assert_eq!(url, "http://localhost:5173/");
        }
        other => panic!("expected immediate url forwarding, got {:?}", other),
    }
}

#[test]
fn log_events_route_through_the_queue() {
    let mut agg = EventAggregator::new();
    match agg.on_event(ManagerEvent::Log(log(9))) {
        AggregatorOutput::Nothing => {}
        other => panic!("a single log should only be queued, got {:?}", other),
    }
    match agg.flush() {
        Some(LogEmission::Single(l)) => assert_eq!(l.text, "line 9"),
        other => panic!("expected the queued log, got {:?}", other),
    }
}
