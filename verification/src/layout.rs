//! What it means to resolve a declared tree: the flow layout as a
//! mathematical function of the tree, the origin and the ambient defaults.

use crate::config::Widget;
use crate::model::{Color, WidgetType, WidgetView};
use vstd::prelude::*;

verus! {

/// The axis along which a container advances from one child to the next.
#[derive(Debug, Clone, Copy, PartialEq, Eq, Structural)]
pub enum Direction {
    /// Left to right, as a row does.
    Across,
    /// Top to bottom, as a column does.
    Down,
}

/// A node's own setting where it has one, else the one handed down to it.
pub open spec fn inherit<T>(own: Option<T>, ambient: Option<T>) -> Option<T> {
    match own {
        Some(_) => own,
        None => ambient,
    }
}

/// The size a leaf takes: its own, else the ambient one, else a single cell.
pub open spec fn resolved_size(own: Option<u16>, ambient: Option<u16>) -> int {
    match inherit(own, ambient) {
        Some(cells) => cells as int,
        None => 1,
    }
}

/// The color a leaf takes: its own, else the ambient one, else the palette's
/// default member.
pub open spec fn resolved_color(own: Option<Color>, ambient: Option<Color>) -> Color {
    match inherit(own, ambient) {
        Some(color) => color,
        None => Color::fallback(),
    }
}

/// The settings that reach a node from the containers above it.
pub struct Defaults {
    pub width: Option<u16>,
    pub height: Option<u16>,
    pub color: Option<Color>,
}

impl Defaults {
    /// No setting at all, as at the top of a dashboard.
    pub open spec fn none() -> Defaults {
        Defaults { width: None, height: None, color: None }
    }

    /// What a container hands down to its children: its own settings where
    /// it has them, and what reached it where it has none.
    pub open spec fn below(self, node: Widget) -> Defaults {
        Defaults {
            width: inherit(node.width_setting(), self.width),
            height: inherit(node.height_setting(), self.height),
            color: inherit(node.color_setting(), self.color),
        }
    }

    /// Every size among these settings is at least one cell.
    pub open spec fn positive(self) -> bool {
        positive_or_unset(self.width) && positive_or_unset(self.height)
    }
}

/// The settings that reach a node when these three are handed to it.
pub open spec fn ambient(
    width: Option<u16>,
    height: Option<u16>,
    color: Option<Color>,
) -> Defaults {
    Defaults { width, height, color }
}

/// A size that, where it is set, is at least one cell.
pub open spec fn positive_or_unset(setting: Option<u16>) -> bool {
    setting matches Some(cells) ==> cells >= 1
}

/// The larger of two numbers.
pub open spec fn larger(a: int, b: int) -> int {
    if a >= b {
        a
    } else {
        b
    }
}

/// The extent of two neighbours taken together: sizes add along the
/// direction of flow, and the larger one counts across it.
pub open spec fn join(direction: Direction, a: (int, int), b: (int, int)) -> (int, int) {
    match direction {
        Direction::Across => (a.0 + b.0, larger(a.1, b.1)),
        Direction::Down => (larger(a.0, b.0), a.1 + b.1),
    }
}

/// Where the next child starts after one of extent `by` was placed at
/// `from`.
pub open spec fn advance(direction: Direction, from: (int, int), by: (int, int)) -> (int, int) {
    match direction {
        Direction::Across => (from.0 + by.0, from.1),
        Direction::Down => (from.0, from.1 + by.1),
    }
}

impl Widget {
    /// The width a leaf names for itself, or the width a container sets for
    /// its children.
    pub open spec fn width_setting(self) -> Option<u16> {
        match self {
            Widget::Label(w) => w.width,
            Widget::Freshness(w) => w.width,
            Widget::Gauge(w) => w.width,
            Widget::Line(w) => w.width,
            Widget::Value(w) => w.width,
            Widget::Row(c) => c.widget_width,
            Widget::Column(c) => c.widget_width,
        }
    }

    /// The height a leaf names for itself, or the height a container sets for
    /// its children.
    pub open spec fn height_setting(self) -> Option<u16> {
        match self {
            Widget::Label(w) => w.height,
            Widget::Freshness(w) => w.height,
            Widget::Gauge(w) => w.height,
            Widget::Line(w) => w.height,
            Widget::Value(w) => w.height,
            Widget::Row(c) => c.widget_height,
            Widget::Column(c) => c.widget_height,
        }
    }

    /// The color a leaf names for itself, or the color a container sets for
    /// its children.
    pub open spec fn color_setting(self) -> Option<Color> {
        match self {
            Widget::Label(w) => w.color,
            Widget::Freshness(w) => w.color,
            Widget::Gauge(w) => w.color,
            Widget::Line(w) => w.color,
            Widget::Value(w) => w.color,
            Widget::Row(c) => c.widget_color,
            Widget::Column(c) => c.widget_color,
        }
    }

    /// Whether this node is a row or a column.
    pub open spec fn is_container(self) -> bool {
        self is Row || self is Column
    }

    /// The children of a container, in document order; a leaf has none.
    pub open spec fn children(self) -> Seq<Widget> {
        match self {
            Widget::Row(c) => c.widgets@,
            Widget::Column(c) => c.widgets@,
            _ => Seq::empty(),
        }
    }

    /// The direction in which a container places its children.
    pub open spec fn direction(self) -> Direction {
        if self is Row {
            Direction::Across
        } else {
            Direction::Down
        }
    }

    /// The caption a leaf carries into its resolved widget.
    pub open spec fn label_text(self) -> Seq<char> {
        match self {
            Widget::Label(w) => w.text@,
            Widget::Gauge(w) => w.label@,
            Widget::Line(w) => w.label@,
            Widget::Value(w) => w.label@,
            _ => Seq::empty(),
        }
    }

    /// The series a leaf reads from.
    pub open spec fn series_name(self) -> Seq<char> {
        match self {
            Widget::Freshness(w) => w.series@,
            Widget::Gauge(w) => w.series@,
            Widget::Line(w) => w.series@,
            Widget::Value(w) => w.series@,
            _ => Seq::empty(),
        }
    }

    /// What a leaf displays.
    pub open spec fn kind(self) -> WidgetType {
        match self {
            Widget::Freshness(_) => WidgetType::Freshness,
            Widget::Gauge(w) => WidgetType::Gauge { min: w.min, max: w.max },
            Widget::Line(_) => WidgetType::Line,
            Widget::Value(_) => WidgetType::Value,
            _ => WidgetType::Label,
        }
    }

    /// The leaves below this node, in document order.
    pub open spec fn leaves(self) -> Seq<Widget>
        decreases self,
    {
        if self.is_container() {
            flow_leaves(self.children())
        } else {
            seq![self]
        }
    }

    /// The number of leaves below this node.
    pub open spec fn leaf_count(self) -> nat
        decreases self,
    {
        if self.is_container() {
            flow_leaf_count(self.children())
        } else {
            1
        }
    }

    /// The width and height this subtree consumes under the given ambient
    /// defaults.
    pub open spec fn extent(self, defaults: Defaults) -> (int, int)
        decreases self,
    {
        if self.is_container() {
            flow_extent(self.children(), self.direction(), defaults.below(self))
        } else {
            (
                resolved_size(self.width_setting(), defaults.width),
                resolved_size(self.height_setting(), defaults.height),
            )
        }
    }

    /// The resolved widgets of this subtree when it starts at `(left, top)`.
    ///
    /// A leaf yields itself at that cell. A container hands its own settings
    /// down as the defaults of its children, and where it sets nothing, the
    /// defaults it was given.
    pub open spec fn layout(self, left: int, top: int, defaults: Defaults) -> Seq<WidgetView>
        decreases self,
    {
        if self.is_container() {
            flow_layout(self.children(), self.direction(), left, top, defaults.below(self))
        } else {
            seq![
                WidgetView {
                    label: self.label_text(),
                    left,
                    top,
                    width: resolved_size(self.width_setting(), defaults.width),
                    height: resolved_size(self.height_setting(), defaults.height),
                    series: self.series_name(),
                    typ: self.kind(),
                    color: resolved_color(self.color_setting(), defaults.color),
                },
            ]
        }
    }

    /// Whether every size that this subtree sets is at least one cell.
    pub open spec fn positive_sizes(self) -> bool
        decreases self,
    {
        &&& positive_or_unset(self.width_setting())
        &&& positive_or_unset(self.height_setting())
        &&& forall|i: int|
            0 <= i < self.children().len() ==> (#[trigger] self.children()[i]).positive_sizes()
    }

    /// Whether no node of this subtree sets a size or a color.
    pub open spec fn sets_nothing(self) -> bool
        decreases self,
    {
        &&& self.width_setting() is None
        &&& self.height_setting() is None
        &&& self.color_setting() is None
        &&& forall|i: int|
            0 <= i < self.children().len() ==> (#[trigger] self.children()[i]).sets_nothing()
    }

    /// Whether the subtree, started at `(left, top)`, ends within the
    /// addressable grid.
    pub open spec fn fits(self, left: int, top: int, defaults: Defaults) -> bool {
        let (width, height) = self.extent(defaults);
        left + width <= u16::MAX && top + height <= u16::MAX
    }
}

/// The leaves below a run of siblings, in document order.
pub open spec fn flow_leaves(children: Seq<Widget>) -> Seq<Widget>
    decreases children,
{
    if children.len() == 0 {
        Seq::empty()
    } else {
        children.first().leaves() + flow_leaves(children.drop_first())
    }
}

/// The number of leaves below a run of siblings.
pub open spec fn flow_leaf_count(children: Seq<Widget>) -> nat
    decreases children,
{
    if children.len() == 0 {
        0
    } else {
        children.first().leaf_count() + flow_leaf_count(children.drop_first())
    }
}

/// The width and height a run of siblings consumes when placed one after
/// another in the given direction. An empty run consumes nothing.
pub open spec fn flow_extent(children: Seq<Widget>, direction: Direction, defaults: Defaults) -> (
    int,
    int,
)
    decreases children,
{
    if children.len() == 0 {
        (0, 0)
    } else {
        join(
            direction,
            children.first().extent(defaults),
            flow_extent(children.drop_first(), direction, defaults),
        )
    }
}

/// The resolved widgets of a run of siblings: the first child starts at
/// `(left, top)`, and each later one where its predecessor ended along the
/// direction of flow.
pub open spec fn flow_layout(
    children: Seq<Widget>,
    direction: Direction,
    left: int,
    top: int,
    defaults: Defaults,
) -> Seq<WidgetView>
    decreases children,
{
    if children.len() == 0 {
        Seq::empty()
    } else {
        let first = children.first();
        let next = advance(direction, (left, top), first.extent(defaults));
        first.layout(left, top, defaults) + flow_layout(
            children.drop_first(),
            direction,
            next.0,
            next.1,
            defaults,
        )
    }
}

/// Whether a run of siblings, started at `(left, top)`, ends within the
/// addressable grid.
pub open spec fn flow_fits(
    children: Seq<Widget>,
    direction: Direction,
    left: int,
    top: int,
    defaults: Defaults,
) -> bool {
    let (width, height) = flow_extent(children, direction, defaults);
    left + width <= u16::MAX && top + height <= u16::MAX
}

} // verus!
