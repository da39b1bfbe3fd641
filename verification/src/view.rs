//! What a renderer is handed for each widget: the widget and the readings it
//! draws from.

use crate::model::{Point, Widget, WidgetView};
use vstd::prelude::*;

verus! {

/// A widget together with what it shows.
#[derive(Debug)]
pub struct WidgetTemplate {
    pub config: Widget,
    pub template: WidgetTemplateInner,
}

/// What a widget shows, by kind.
#[derive(Debug)]
pub enum WidgetTemplateInner {
    Value(ValueWidgetTemplate),
    Line(LineWidgetTemplate),
    Gauge(GaugeWidgetTemplate),
    Label,
    Freshness(FreshnessWidgetTemplate),
}

/// The newest value of the series, if there is any.
#[derive(Debug)]
pub struct ValueWidgetTemplate {
    pub config: Widget,
    pub point: Option<u32>,
}

/// When the series was last written, if ever.
#[derive(Debug)]
pub struct FreshnessWidgetTemplate {
    pub last_update_time: Option<i64>,
}

/// The newest value of the series, if there is any, to be set against the
/// gauge's scale.
#[derive(Debug)]
pub struct GaugeWidgetTemplate {
    pub config: Widget,
    pub point: Option<u32>,
}

/// All readings of the series, oldest first.
#[derive(Debug)]
pub struct LineWidgetTemplate {
    pub config: Widget,
    pub data: Vec<Point>,
}

/// The mathematical value of what a widget shows.
pub enum TemplateView {
    Value { config: WidgetView, point: Option<u32> },
    Line { config: WidgetView, data: Seq<Point> },
    Gauge { config: WidgetView, point: Option<u32> },
    Label,
    Freshness { last_update_time: Option<i64> },
}

impl View for WidgetTemplateInner {
    type V = TemplateView;

    open spec fn view(&self) -> TemplateView {
        match self {
            WidgetTemplateInner::Value(t) => TemplateView::Value {
                config: t.config@,
                point: t.point,
            },
            WidgetTemplateInner::Line(t) => TemplateView::Line { config: t.config@, data: t.data@ },
            WidgetTemplateInner::Gauge(t) => TemplateView::Gauge {
                config: t.config@,
                point: t.point,
            },
            WidgetTemplateInner::Label => TemplateView::Label,
            WidgetTemplateInner::Freshness(t) => TemplateView::Freshness {
                last_update_time: t.last_update_time,
            },
        }
    }
}

} // verus!
