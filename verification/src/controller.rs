//! The decisions between a request and its answer: which readings a widget
//! is drawn from, and what becomes of a reading that is pushed.

use crate::model::{Point, Widget, WidgetType, WidgetView};
use crate::view::{
    FreshnessWidgetTemplate, GaugeWidgetTemplate, LineWidgetTemplate, TemplateView,
    ValueWidgetTemplate, WidgetTemplate, WidgetTemplateInner,
};
use vstd::prelude::*;

verus! {

/// The newest of some readings that are ordered by time, oldest first.
pub open spec fn newest(data: Seq<Point>) -> Option<Point> {
    if data.len() == 0 {
        None
    } else {
        Some(data.last())
    }
}

/// What a widget shows, given the readings of its series over the window
/// that is displayed: a value and a gauge take the newest value, a freshness
/// indicator the time of the newest reading, a line all readings, and a label
/// none.
pub open spec fn shown(config: WidgetView, data: Seq<Point>) -> TemplateView {
    match config.typ {
        WidgetType::Value => TemplateView::Value {
            config,
            point: match newest(data) {
                Some(point) => Some(point.value),
                None => None,
            },
        },
        WidgetType::Line => TemplateView::Line { config, data },
        WidgetType::Gauge { .. } => TemplateView::Gauge {
            config,
            point: match newest(data) {
                Some(point) => Some(point.value),
                None => None,
            },
        },
        WidgetType::Label => TemplateView::Label,
        WidgetType::Freshness => TemplateView::Freshness {
            last_update_time: match newest(data) {
                Some(point) => Some(point.time),
                None => None,
            },
        },
    }
}

fn last_point(data: &Vec<Point>) -> (point: Option<Point>)
    ensures
        point == newest(data@),
{
    if data.len() == 0 {
        None
    } else {
        Some(data[data.len() - 1])
    }
}

/// Pairs a widget with what it shows, given the readings of its series,
/// oldest first. The widget itself is handed on as it is; no reading changes
/// it, and no reading is changed to suit it.
pub fn build_widget(config: Widget, data: Vec<Point>) -> (template: WidgetTemplate)
    ensures
        template.config@ == config@,
        template.template@ == shown(config@, data@),
{
    let template = match config.typ {
        WidgetType::Value => WidgetTemplateInner::Value(
            ValueWidgetTemplate {
                config: config.clone(),
                point: match last_point(&data) {
                    Some(point) => Some(point.value),
                    None => None,
                },
            },
        ),
        WidgetType::Line => WidgetTemplateInner::Line(
            LineWidgetTemplate { config: config.clone(), data },
        ),
        WidgetType::Gauge { .. } => WidgetTemplateInner::Gauge(
            GaugeWidgetTemplate {
                config: config.clone(),
                point: match last_point(&data) {
                    Some(point) => Some(point.value),
                    None => None,
                },
            },
        ),
        WidgetType::Label => WidgetTemplateInner::Label,
        WidgetType::Freshness => WidgetTemplateInner::Freshness(
            FreshnessWidgetTemplate {
                last_update_time: match last_point(&data) {
                    Some(point) => Some(point.time),
                    None => None,
                },
            },
        ),
    };
    WidgetTemplate { config, template }
}

/// What becomes of a reading that a client pushes.
#[derive(Debug, Clone, Copy, PartialEq, Eq, Structural)]
pub enum PutDecision {
    /// The client did not give the secret: the push is refused.
    Unauthorized,
    /// The reading is stored.
    Store,
    /// The push is acknowledged, and the reading is dropped.
    Skip,
}

/// What becomes of a pushed reading: without the right secret it is
/// refused, and of the others those are stored whose value can be stored.
pub open spec fn put_decision(secret: Seq<char>, expected: Seq<char>, storable: bool) -> PutDecision {
    if secret != expected {
        PutDecision::Unauthorized
    } else if storable {
        PutDecision::Store
    } else {
        PutDecision::Skip
    }
}

/// Decides what becomes of a pushed reading, given the secret that came with
/// it, the secret that is expected, and whether its value can be stored.
pub fn decide_put(secret: &String, expected: &String, storable: bool) -> (decision: PutDecision)
    ensures
        decision == put_decision(secret@, expected@, storable),
{
    if !(*secret == *expected) {
        PutDecision::Unauthorized
    } else if storable {
        PutDecision::Store
    } else {
        PutDecision::Skip
    }
}

} // verus!
