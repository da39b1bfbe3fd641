use slapdash::config::{Dashboards, Label, Widget};
use slapdash::controller::{build_widget, decide_put, PutDecision};
use slapdash::model::{Color, Dashboard, Point, Widget as ModelWidget, WidgetType};
use slapdash::view::WidgetTemplateInner;

fn dashboard_with(labels: &[&str], name: &str) -> Dashboard {
    let widgets = labels
        .iter()
        .map(|text| {
            Widget::Label(Label { text: text.to_string(), width: None, height: None, color: None })
        })
        .collect();
    Widget::to_dashboard(widgets, name.to_string()).unwrap()
}

fn resolved(typ: WidgetType) -> ModelWidget {
    ModelWidget {
        label: "Load".to_string(),
        left: 2,
        top: 3,
        width: 4,
        height: 5,
        series: "cpu".to_string(),
        typ,
        color: Color::Indigo,
    }
}

fn point(time: i64, value: f32) -> Point {
    Point { time, value: value.to_bits() }
}

fn same_widget(a: &ModelWidget, b: &ModelWidget) -> bool {
    a.label == b.label
        && a.series == b.series
        && (a.left, a.top, a.width, a.height) == (b.left, b.top, b.width, b.height)
        && a.typ == b.typ
        && a.color == b.color
}

#[test]
fn no_dashboards_at_first() {
    let dashboards = Dashboards::new();
    assert!(dashboards.list().is_empty());
    assert!(dashboards.get("default").is_none());
    assert!(dashboards.get("").is_none());
}

#[test]
fn dashboards_are_found_by_name() {
    let mut dashboards = Dashboards::new();
    dashboards.insert("default".to_string(), dashboard_with(&["a"], "default"));
    dashboards.insert("ops".to_string(), dashboard_with(&["b", "c"], "ops"));
    assert_eq!(dashboards.get("default").unwrap().widgets().len(), 1);
    assert_eq!(dashboards.get("default").unwrap().name(), "default");
    assert_eq!(dashboards.get("ops").unwrap().widgets().len(), 2);
    assert!(dashboards.get("Ops").is_none());
    assert!(dashboards.get("op").is_none());
    let mut names = dashboards.list();
    names.sort();
    assert_eq!(names, vec!["default".to_string(), "ops".to_string()]);
}

#[test]
fn later_dashboard_takes_the_name() {
    let mut dashboards = Dashboards::new();
    dashboards.insert("a".to_string(), dashboard_with(&["1"], "a"));
    dashboards.insert("b".to_string(), dashboard_with(&["1", "2"], "b"));
    dashboards.insert("a".to_string(), dashboard_with(&["1", "2", "3"], "a"));
    assert_eq!(dashboards.get("a").unwrap().widgets().len(), 3);
    assert_eq!(dashboards.get("b").unwrap().widgets().len(), 2);
    let mut names = dashboards.list();
    names.sort();
    assert_eq!(names, vec!["a".to_string(), "b".to_string()]);
}

#[test]
fn point_stands_at_its_time() {
    assert_eq!(point(1718292600, 1.5).x(), 1718292600);
    assert_eq!(point(-3, 0.0).x(), -3);
}

#[test]
fn value_takes_the_newest_reading() {
    let template = build_widget(
        resolved(WidgetType::Value),
        vec![point(10, 1.0), point(20, 2.0), point(30, 3.5)],
    );
    assert!(same_widget(&template.config, &resolved(WidgetType::Value)));
    match template.template {
        WidgetTemplateInner::Value(value) => {
            assert!(same_widget(&value.config, &resolved(WidgetType::Value)));
            assert_eq!(value.point.map(f32::from_bits), Some(3.5));
        }
        other => panic!("{:?}", other),
    }
    match build_widget(resolved(WidgetType::Value), vec![]).template {
        WidgetTemplateInner::Value(value) => assert_eq!(value.point, None),
        other => panic!("{:?}", other),
    }
}

#[test]
fn line_takes_all_readings() {
    let data = vec![point(10, 1.0), point(20, 2.0), point(30, 3.5)];
    match build_widget(resolved(WidgetType::Line), data.clone()).template {
        WidgetTemplateInner::Line(line) => {
            assert!(same_widget(&line.config, &resolved(WidgetType::Line)));
            assert_eq!(line.data, data);
        }
        other => panic!("{:?}", other),
    }
}

#[test]
fn gauge_takes_the_newest_reading_as_it_is() {
    let gauge = WidgetType::Gauge { min: 0.0f64.to_bits(), max: 100.0f64.to_bits() };
    let template = build_widget(resolved(gauge), vec![point(10, 20.0), point(20, 150.0)]);
    assert!(same_widget(&template.config, &resolved(gauge)));
    match template.template {
        WidgetTemplateInner::Gauge(shown) => {
            assert_eq!(shown.point.map(f32::from_bits), Some(150.0));
            assert_eq!(shown.config.typ, gauge);
        }
        other => panic!("{:?}", other),
    }
    match build_widget(resolved(gauge), vec![]).template {
        WidgetTemplateInner::Gauge(shown) => assert_eq!(shown.point, None),
        other => panic!("{:?}", other),
    }
}

#[test]
fn label_takes_no_reading() {
    let template = build_widget(resolved(WidgetType::Label), vec![point(10, 1.0)]);
    assert!(matches!(template.template, WidgetTemplateInner::Label));
    assert!(same_widget(&template.config, &resolved(WidgetType::Label)));
}

#[test]
fn freshness_takes_the_newest_time() {
    match build_widget(resolved(WidgetType::Freshness), vec![point(10, 1.0), point(25, 9.0)]).template {
        WidgetTemplateInner::Freshness(freshness) => assert_eq!(freshness.last_update_time, Some(25)),
        other => panic!("{:?}", other),
    }
    match build_widget(resolved(WidgetType::Freshness), vec![]).template {
        WidgetTemplateInner::Freshness(freshness) => assert_eq!(freshness.last_update_time, None),
        other => panic!("{:?}", other),
    }
}

#[test]
fn push_needs_the_secret() {
    let expected = "s3cret".to_string();
    assert_eq!(decide_put(&"guess".to_string(), &expected, true), PutDecision::Unauthorized);
    assert_eq!(decide_put(&"".to_string(), &expected, false), PutDecision::Unauthorized);
    assert_eq!(decide_put(&"s3cret ".to_string(), &expected, true), PutDecision::Unauthorized);
    assert_eq!(decide_put(&"s3cret".to_string(), &expected, true), PutDecision::Store);
    assert_eq!(decide_put(&"s3cret".to_string(), &expected, false), PutDecision::Skip);
}
