use systemd_exporterd::exportable::{
    plan_export, plan_field, FieldPlan, FieldSpec, FieldType, MetricKind,
};

fn path(ident: Option<&str>, last: &str, first_arg: Option<&str>) -> FieldType {
    FieldType::Path {
        ident: ident.map(|s| s.to_string()),
        last: last.to_string(),
        first_arg: first_arg.map(|s| s.to_string()),
    }
}

fn field(name: &str, ty: FieldType) -> FieldSpec {
    FieldSpec { name: name.into(), ty, description: String::new(), ignore: false, counter: false }
}

#[test]
fn plans_plain_fields() {
    let mut f = field("read_bytes", path(Some("u64"), "u64", None));
    f.counter = true;
    match plan_field("io_stats", &f, "read_bytes") {
        FieldPlan::Metric { name, holder_field, description, kind } => {
            assert_eq!(name, "io_stats_read_bytes");
            assert_eq!(holder_field, "io_stats_read_bytes_metric");
            assert_eq!(description, "Metrics for io_stats_read_bytes.");
            assert!(matches!(kind, MetricKind::Counter));
        }
        _ => panic!("expected a metric"),
    }
    let mut g = field("pid", path(Some("u32"), "u32", None));
    g.description = "The pid".into();
    match plan_field("unit", &g, "pid") {
        FieldPlan::Metric { description, kind, .. } => {
            assert_eq!(description, "The pid");
            assert!(matches!(kind, MetricKind::Gauge));
        }
        _ => panic!("expected a metric"),
    }
    match plan_field("unit", &field("active_state", path(Some("String"), "String", None)), "active_state") {
        FieldPlan::Metric { kind: MetricKind::LabelGauge { label_key }, .. } => assert_eq!(label_key, "active_state"),
        _ => panic!("expected a label gauge"),
    }
    assert!(matches!(
        plan_field("unit", &field("ok", path(Some("bool"), "bool", None)), "ok"),
        FieldPlan::Metric { kind: MetricKind::FlagGauge, .. }
    ));
}

#[test]
fn plans_nested_and_skipped_fields() {
    match plan_field("unit", &field("cpu", path(None, "Option", Some("CPUStats"))), "cpu") {
        FieldPlan::Nested { holder_type, holder_field, optional } => {
            assert_eq!(holder_type, "CPUStatsMetricsHolder");
            assert_eq!(holder_field, "cpu_metrics_holder");
            assert!(optional);
        }
        _ => panic!("expected nested"),
    }
    match plan_field("unit", &field("io", path(None, "IOStats", None)), "io") {
        FieldPlan::Nested { holder_type, optional, .. } => {
            assert_eq!(holder_type, "IOStatsMetricsHolder");
            assert!(!optional);
        }
        _ => panic!("expected nested"),
    }
    assert!(matches!(plan_field("unit", &field("x", path(None, "Option", None)), "x"), FieldPlan::Nothing));
    assert!(matches!(plan_field("unit", &field("x", FieldType::Other), "x"), FieldPlan::Unhandled));
    let mut ignored = field("x", path(Some("u64"), "u64", None));
    ignored.ignore = true;
    assert!(matches!(plan_field("unit", &ignored, "x"), FieldPlan::Skip));
}

#[test]
fn export_plan_uses_snake_case_names() {
    let fields = vec![field("ReadBytes", path(Some("u64"), "u64", None))];
    let plan = plan_export("IOStats", &fields);
    assert_eq!(plan.holder_name, "IOStatsMetricsHolder");
    match &plan.fields[0] {
        FieldPlan::Metric { name, .. } => assert_eq!(name, "io_stats_read_bytes"),
        _ => panic!("expected a metric"),
    }
}

fn metric_name(p: &FieldPlan) -> Option<String> {
    match p {
        FieldPlan::Metric { name, .. } => Some(name.clone()),
        _ => None,
    }
}

#[test]
fn ignored_field_changes_nothing() {
    let mut ignored = field("Skipped", FieldType::Other);
    ignored.ignore = true;
    let with = vec![
        field("ReadBytes", path(Some("u64"), "u64", None)),
        ignored,
        field("Running", path(Some("bool"), "bool", None)),
    ];
    let without = vec![
        field("ReadBytes", path(Some("u64"), "u64", None)),
        field("Running", path(Some("bool"), "bool", None)),
    ];
    let a = plan_export("UnitStats", &with);
    let b = plan_export("UnitStats", &without);
    assert_eq!(a.fields.len(), 3);
    assert!(matches!(a.fields[1], FieldPlan::Skip));
    assert_eq!(metric_name(&a.fields[0]), metric_name(&b.fields[0]));
    assert_eq!(metric_name(&a.fields[2]), metric_name(&b.fields[1]));
    assert_eq!(metric_name(&b.fields[1]), Some("unit_stats_running".to_string()));
}
