use tui_logger::logger::TuiLogger;
use tui_logger::tracing_subscriber::ToStringVisitor;
use tui_logger::tracing_subscriber::TracedEvent;
use tui_logger::tracing_subscriber::TracingLevel;
use tui_logger::tracing_subscriber_layer;
use tui_logger::Level;

fn event(level: TracingLevel, fields: ToStringVisitor) -> TracedEvent {
    TracedEvent {
        level,
        target: "traced".to_string(),
        file: Some("lib.rs".to_string()),
        line: Some(3),
        module: Some("app::net".to_string()),
        fields,
    }
}

#[test]
fn fields_become_the_message() {
    let mut fields = ToStringVisitor::new();
    assert_eq!(fields.message(), "");
    fields.record_str("message", "started");
    fields.record_i64("delta", -5);
    fields.record_u64("count", 12);
    fields.record_bool("ok", true);
    fields.record_bool("failed", false);
    fields.record_text("ratio", "0.5".to_string());
    assert_eq!(
        fields.message(),
        " message: started delta: -5 count: 12 ok: true failed: false ratio: 0.5"
    );
}

#[test]
fn a_field_has_its_last_value() {
    let mut fields = ToStringVisitor::new();
    fields.record_u64("a", 1);
    fields.record_u64("b", 2);
    fields.record_u64("a", 3);
    assert_eq!(fields.message(), " a: 3 b: 2");
    fields.record_str("b", "again");
    assert_eq!(fields.message(), " a: 3 b: again");
}

#[test]
fn levels_are_carried_over() {
    let levels = [
        (TracingLevel::Error, Level::Error),
        (TracingLevel::Warn, Level::Warn),
        (TracingLevel::Info, Level::Info),
        (TracingLevel::Debug, Level::Debug),
        (TracingLevel::Trace, Level::Trace),
    ];
    for (traced, logged) in levels {
        let record = event(traced, ToStringVisitor::new()).record();
        assert_eq!(record.level, logged);
        assert_eq!(record.target, "traced");
        assert_eq!(record.file, Some("lib.rs".to_string()));
        assert_eq!(record.line, Some(3));
        assert_eq!(record.module, Some("app::net".to_string()));
    }
}

#[test]
fn layer_logs_enabled_events() {
    let mut logger = TuiLogger::new(4);
    let layer = tracing_subscriber_layer();
    let mut fields = ToStringVisitor::new();
    fields.record_str("message", "hi");
    layer.on_event(&event(TracingLevel::Warn, fields), &mut logger);
    layer.on_event(&event(TracingLevel::Trace, ToStringVisitor::new()), &mut logger);
    let events = logger.hot_log.events.iter();
    assert_eq!(events.len(), 1);
    assert_eq!(events[0].msg, " message: hi");
    assert_eq!(events[0].level, Level::Warn);
    assert_eq!(events[0].file, "lib.rs");
    assert_eq!(events[0].line, 3);
}
