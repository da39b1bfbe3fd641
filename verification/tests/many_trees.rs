use slapdash::config::{Column, Freshness, Gauge, Label, LayoutError, Line, Row, Value, Widget};
use slapdash::model::{Color, Widget as ModelWidget, WidgetType};

/// A small generator of repeatable numbers.
struct Numbers(u64);

impl Numbers {
    fn next(&mut self) -> u64 {
        self.0 = self.0.wrapping_mul(6364136223846793005).wrapping_add(1442695040888963407);
        self.0 >> 33
    }

    fn below(&mut self, bound: u64) -> u64 {
        self.next() % bound
    }

    fn size(&mut self, largest: u16) -> Option<u16> {
        if self.below(3) == 0 {
            None
        } else {
            Some(1 + self.below(largest as u64) as u16)
        }
    }

    fn color(&mut self) -> Option<Color> {
        match self.below(5) {
            0 => Some(Color::Red),
            1 => Some(Color::Blue),
            2 => Some(Color::Khaki),
            _ => None,
        }
    }

    fn tree(&mut self, depth: u32, largest: u16) -> Widget {
        let kind = if depth == 0 { self.below(5) } else { self.below(8) };
        let name = format!("w{}", self.below(1000));
        let series = format!("s{}", self.below(1000));
        match kind {
            0 => Widget::Label(Label {
                text: name,
                width: self.size(largest),
                height: self.size(largest),
                color: self.color(),
            }),
            1 => Widget::Freshness(Freshness {
                series,
                width: self.size(largest),
                height: self.size(largest),
                color: self.color(),
            }),
            2 => Widget::Gauge(Gauge {
                label: name,
                series,
                min: self.next(),
                max: self.next(),
                width: self.size(largest),
                height: self.size(largest),
                color: self.color(),
            }),
            3 => Widget::Line(Line {
                label: name,
                series,
                width: self.size(largest),
                height: self.size(largest),
                color: self.color(),
            }),
            4 => Widget::Value(Value {
                label: name,
                series,
                width: self.size(largest),
                height: self.size(largest),
                color: self.color(),
            }),
            5 | 6 => {
                let count = self.below(4);
                Widget::Row(Row {
                    widgets: (0..count).map(|_| self.tree(depth - 1, largest)).collect(),
                    widget_height: self.size(largest),
                    widget_width: self.size(largest),
                    widget_color: self.color(),
                })
            }
            _ => {
                let count = self.below(4);
                Widget::Column(Column {
                    widgets: (0..count).map(|_| self.tree(depth - 1, largest)).collect(),
                    widget_height: self.size(largest),
                    widget_width: self.size(largest),
                    widget_color: self.color(),
                })
            }
        }
    }
}

/// What a resolved widget must be, in numbers without a limit.
#[derive(Debug, PartialEq)]
struct Expected {
    label: String,
    series: String,
    left: u64,
    top: u64,
    width: u64,
    height: u64,
    typ: WidgetType,
    color: Color,
}

fn leaf(
    label: &str,
    series: &str,
    typ: WidgetType,
    own: (Option<u16>, Option<u16>, Option<Color>),
    at: (u64, u64),
    defaults: (Option<u16>, Option<u16>, Option<Color>),
    out: &mut Vec<Expected>,
) -> (u64, u64) {
    let width = own.0.or(defaults.0).unwrap_or(1) as u64;
    let height = own.1.or(defaults.1).unwrap_or(1) as u64;
    out.push(Expected {
        label: label.to_string(),
        series: series.to_string(),
        left: at.0,
        top: at.1,
        width,
        height,
        typ,
        color: own.2.or(defaults.2).unwrap_or(Color::Teal),
    });
    (width, height)
}

/// The flow layout, written out directly.
fn expect(
    node: &Widget,
    at: (u64, u64),
    defaults: (Option<u16>, Option<u16>, Option<Color>),
    out: &mut Vec<Expected>,
) -> (u64, u64) {
    match node {
        Widget::Label(w) => {
            leaf(&w.text, "", WidgetType::Label, (w.width, w.height, w.color), at, defaults, out)
        }
        Widget::Freshness(w) => leaf(
            "",
            &w.series,
            WidgetType::Freshness,
            (w.width, w.height, w.color),
            at,
            defaults,
            out,
        ),
        Widget::Gauge(w) => leaf(
            &w.label,
            &w.series,
            WidgetType::Gauge { min: w.min, max: w.max },
            (w.width, w.height, w.color),
            at,
            defaults,
            out,
        ),
        Widget::Line(w) => leaf(
            &w.label,
            &w.series,
            WidgetType::Line,
            (w.width, w.height, w.color),
            at,
            defaults,
            out,
        ),
        Widget::Value(w) => leaf(
            &w.label,
            &w.series,
            WidgetType::Value,
            (w.width, w.height, w.color),
            at,
            defaults,
            out,
        ),
        Widget::Row(c) => {
            let handed = (
                c.widget_width.or(defaults.0),
                c.widget_height.or(defaults.1),
                c.widget_color.or(defaults.2),
            );
            let (mut width, mut height) = (0, 0);
            for child in &c.widgets {
                let (w, h) = expect(child, (at.0 + width, at.1), handed, out);
                width += w;
                height = height.max(h);
            }
            (width, height)
        }
        Widget::Column(c) => {
            let handed = (
                c.widget_width.or(defaults.0),
                c.widget_height.or(defaults.1),
                c.widget_color.or(defaults.2),
            );
            let (mut width, mut height) = (0, 0);
            for child in &c.widgets {
                let (w, h) = expect(child, (at.0, at.1 + height), handed, out);
                height += h;
                width = width.max(w);
            }
            (width, height)
        }
    }
}

fn leaves(node: &Widget) -> usize {
    match node {
        Widget::Row(c) => c.widgets.iter().map(leaves).sum(),
        Widget::Column(c) => c.widgets.iter().map(leaves).sum(),
        _ => 1,
    }
}

fn seen(widget: &ModelWidget) -> Expected {
    Expected {
        label: widget.label.clone(),
        series: widget.series.clone(),
        left: widget.left as u64,
        top: widget.top as u64,
        width: widget.width as u64,
        height: widget.height as u64,
        typ: widget.typ,
        color: widget.color,
    }
}

fn compare(numbers: &mut Numbers, depth: u32, largest: u16) -> bool {
    let tree = numbers.tree(depth, largest);
    let left = 1 + numbers.below(50) as u16;
    let top = 1 + numbers.below(50) as u16;
    let defaults = (numbers.size(largest), numbers.size(largest), numbers.color());

    let mut expected = Vec::new();
    let (width, height) = expect(&tree, (left as u64, top as u64), defaults, &mut expected);
    let fits = left as u64 + width <= u16::MAX as u64 && top as u64 + height <= u16::MAX as u64;
    assert_eq!(
        fits,
        expected.iter().all(|w| {
            w.left + w.width <= u16::MAX as u64 && w.top + w.height <= u16::MAX as u64
        })
    );

    let mut models = vec![];
    let consumed = tree.to_model(left, top, defaults.0, defaults.1, defaults.2, &mut models);
    if fits {
        assert_eq!(consumed, Ok((width as u16, height as u16)));
        assert_eq!(models.iter().map(seen).collect::<Vec<_>>(), expected);
        assert_eq!(models.len(), leaves(&tree));
        assert!(tree.has_positive_sizes());
        assert!(models.iter().all(|w| w.left >= left && w.top >= top));
        assert!(models.iter().all(|w| w.width >= 1 && w.height >= 1));
    } else {
        assert_eq!(consumed, Err(LayoutError::Overflow));
        assert!(models.is_empty());
    }
    fits
}

#[test]
fn small_trees_match_the_flow_layout() {
    let mut numbers = Numbers(7);
    for _ in 0..2000 {
        assert!(compare(&mut numbers, 4, 9));
    }
}

#[test]
fn large_trees_fit_or_are_refused() {
    let mut numbers = Numbers(11);
    let mut fitting = 0;
    let mut refused = 0;
    for _ in 0..2000 {
        if compare(&mut numbers, 4, 30000) {
            fitting += 1;
        } else {
            refused += 1;
        }
    }
    assert!(fitting > 20, "{fitting}");
    assert!(refused > 20, "{refused}");
}

#[test]
fn dashboards_match_the_flow_layout() {
    let mut numbers = Numbers(23);
    for round in 0..500 {
        let count = numbers.below(4);
        let widgets: Vec<Widget> = (0..count).map(|_| numbers.tree(3, 12)).collect();

        let mut expected = Vec::new();
        let mut top = 1u64;
        let mut width = 0u64;
        for widget in &widgets {
            let (w, h) = expect(widget, (1, top), (None, None, None), &mut expected);
            top += h;
            width = width.max(w);
        }

        let dashboard = Widget::to_dashboard(widgets, format!("d{round}")).unwrap();
        assert_eq!(dashboard.name(), format!("d{round}"));
        assert_eq!(dashboard.widgets().iter().map(seen).collect::<Vec<_>>(), expected);
        let right = expected.iter().map(|w| w.left + w.width - 1).max().unwrap_or(0);
        let bottom = expected.iter().map(|w| w.top + w.height - 1).max().unwrap_or(0);
        assert_eq!(dashboard.width() as u64, right);
        assert_eq!(dashboard.height() as u64, bottom);
        assert!(right <= width);
        assert!(bottom < top);
    }
}
