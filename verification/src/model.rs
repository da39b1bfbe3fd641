//! The resolved side of a dashboard: colors, positioned widgets and the
//! dashboard that collects them.

use vstd::prelude::*;

verus! {

/// The closed palette a widget can be drawn in.
#[derive(Debug, Clone, Copy, PartialEq, Eq, Structural)]
pub enum Color {
    Red,
    Pink,
    Purple,
    DeepPurple,
    Indigo,
    Blue,
    LightBlue,
    Cyan,
    Aqua,
    Teal,
    Green,
    LightGreen,
    Lime,
    Sand,
    Khaki,
    Yellow,
    Amber,
    Orange,
    DeepOrange,
    BlueGray,
    Brown,
    LightGray,
    Gray,
    DarkGray,
    PaleRed,
    PaleYellow,
    PaleGreen,
    PaleBlue,
}

impl Default for Color {
    /// The palette's default member is `Teal`.
    fn default() -> (c: Color)
        ensures
            c == Color::Teal,
    {
        Color::Teal
    }
}

impl Color {
    /// The color a widget takes when neither it nor any enclosing container
    /// names one.
    pub open spec fn fallback() -> Color {
        Color::Teal
    }

    /// Whether text on this background is drawn in white; the other members
    /// are light enough to carry black text.
    pub open spec fn is_dark(self) -> bool {
        match self {
            Color::Red
            | Color::Pink
            | Color::Purple
            | Color::DeepPurple
            | Color::Indigo
            | Color::Blue
            | Color::Teal
            | Color::Green
            | Color::DeepOrange
            | Color::BlueGray
            | Color::Brown
            | Color::DarkGray => true,
            _ => false,
        }
    }

    /// The name of the style class that paints the background in this color.
    pub open spec fn css_class(self) -> Seq<char> {
        match self {
            Color::Red => "w3-red"@,
            Color::Pink => "w3-pink"@,
            Color::Purple => "w3-purple"@,
            Color::DeepPurple => "w3-deep-purple"@,
            Color::Indigo => "w3-indigo"@,
            Color::Blue => "w3-blue"@,
            Color::LightBlue => "w3-light-blue"@,
            Color::Cyan => "w3-cyan"@,
            Color::Aqua => "w3-aqua"@,
            Color::Teal => "w3-teal"@,
            Color::Green => "w3-green"@,
            Color::LightGreen => "w3-light-green"@,
            Color::Lime => "w3-lime"@,
            Color::Sand => "w3-sand"@,
            Color::Khaki => "w3-khaki"@,
            Color::Yellow => "w3-yellow"@,
            Color::Amber => "w3-amber"@,
            Color::Orange => "w3-orange"@,
            Color::DeepOrange => "w3-deep-orange"@,
            Color::BlueGray => "w3-blue-gray"@,
            Color::Brown => "w3-brown"@,
            Color::LightGray => "w3-light-gray"@,
            Color::Gray => "w3-gray"@,
            Color::DarkGray => "w3-dark-gray"@,
            Color::PaleRed => "w3-pale-red"@,
            Color::PaleYellow => "w3-pale-yellow"@,
            Color::PaleGreen => "w3-pale-green"@,
            Color::PaleBlue => "w3-pale-blue"@,
        }
    }

    /// The stroke color that stays readable on this background.
    pub open spec fn css_stroke(self) -> Seq<char> {
        if self.is_dark() {
            "white"@
        } else {
            "black"@
        }
    }

    /// The style class that paints a background in this color.
    pub fn to_css_class(&self) -> (class: &'static str)
        ensures
            class@ == self.css_class(),
    {
        match self {
            Color::Red => "w3-red",
            Color::Pink => "w3-pink",
            Color::Purple => "w3-purple",
            Color::DeepPurple => "w3-deep-purple",
            Color::Indigo => "w3-indigo",
            Color::Blue => "w3-blue",
            Color::LightBlue => "w3-light-blue",
            Color::Cyan => "w3-cyan",
            Color::Aqua => "w3-aqua",
            Color::Teal => "w3-teal",
            Color::Green => "w3-green",
            Color::LightGreen => "w3-light-green",
            Color::Lime => "w3-lime",
            Color::Sand => "w3-sand",
            Color::Khaki => "w3-khaki",
            Color::Yellow => "w3-yellow",
            Color::Amber => "w3-amber",
            Color::Orange => "w3-orange",
            Color::DeepOrange => "w3-deep-orange",
            Color::BlueGray => "w3-blue-gray",
            Color::Brown => "w3-brown",
            Color::LightGray => "w3-light-gray",
            Color::Gray => "w3-gray",
            Color::DarkGray => "w3-dark-gray",
            Color::PaleRed => "w3-pale-red",
            Color::PaleYellow => "w3-pale-yellow",
            Color::PaleGreen => "w3-pale-green",
            Color::PaleBlue => "w3-pale-blue",
        }
    }

    /// The stroke color for drawing on this background: white on the dark
    /// members of the palette, black on the others.
    pub fn to_css_stroke(&self) -> (stroke: &'static str)
        ensures
            stroke@ == self.css_stroke(),
    {
        match self {
            Color::Red => "white",
            Color::Pink => "white",
            Color::Purple => "white",
            Color::DeepPurple => "white",
            Color::Indigo => "white",
            Color::Blue => "white",
            Color::LightBlue => "black",
            Color::Cyan => "black",
            Color::Aqua => "black",
            Color::Teal => "white",
            Color::Green => "white",
            Color::LightGreen => "black",
            Color::Lime => "black",
            Color::Sand => "black",
            Color::Khaki => "black",
            Color::Yellow => "black",
            Color::Amber => "black",
            Color::Orange => "black",
            Color::DeepOrange => "white",
            Color::BlueGray => "white",
            Color::Brown => "white",
            Color::LightGray => "black",
            Color::Gray => "black",
            Color::DarkGray => "white",
            Color::PaleRed => "black",
            Color::PaleYellow => "black",
            Color::PaleGreen => "black",
            Color::PaleBlue => "black",
        }
    }
}

/// What a resolved widget displays.
///
/// A gauge carries the two bounds of its scale. The layout never computes
/// with them: each is held as the bit pattern of a double-precision number
/// and handed on as it came.
#[derive(Debug, Clone, Copy, PartialEq, Eq, Structural)]
pub enum WidgetType {
    /// The newest reading as a number.
    Value,
    /// The readings drawn over time.
    Line,
    /// The newest reading on a scale between two bounds.
    Gauge { min: u64, max: u64 },
    /// A fixed text.
    Label,
    /// The age of the newest reading.
    Freshness,
}

/// A leaf widget with its place on the grid. Cells are counted from 1.
#[derive(Debug)]
pub struct Widget {
    /// The caption; empty for a freshness indicator.
    pub label: String,
    /// The first column the widget covers.
    pub left: u16,
    /// The first row the widget covers.
    pub top: u16,
    /// The number of columns the widget covers.
    pub width: u16,
    /// The number of rows the widget covers.
    pub height: u16,
    /// The series the widget reads from; empty for a label.
    pub series: String,
    /// What the widget displays.
    pub typ: WidgetType,
    /// The color the widget is drawn in.
    pub color: Color,
}

/// The mathematical value of a resolved widget.
pub struct WidgetView {
    pub label: Seq<char>,
    pub left: int,
    pub top: int,
    pub width: int,
    pub height: int,
    pub series: Seq<char>,
    pub typ: WidgetType,
    pub color: Color,
}

impl WidgetView {
    /// The last column the widget covers.
    pub open spec fn right(self) -> int {
        self.left + self.width - 1
    }

    /// The last row the widget covers.
    pub open spec fn bottom(self) -> int {
        self.top + self.height - 1
    }

    /// The widget starts on the grid and covers at least one cell.
    pub open spec fn positive(self) -> bool {
        self.left >= 1 && self.top >= 1 && self.width >= 1 && self.height >= 1
    }

    /// The widget ends within the grid: the column after its last column and
    /// the row after its last row can still be addressed.
    pub open spec fn within_grid(self) -> bool {
        self.left + self.width <= u16::MAX && self.top + self.height <= u16::MAX
    }
}

impl View for Widget {
    type V = WidgetView;

    open spec fn view(&self) -> WidgetView {
        WidgetView {
            label: self.label@,
            left: self.left as int,
            top: self.top as int,
            width: self.width as int,
            height: self.height as int,
            series: self.series@,
            typ: self.typ,
            color: self.color,
        }
    }
}

impl DeepView for Widget {
    type V = WidgetView;

    open spec fn deep_view(&self) -> WidgetView {
        self@
    }
}

impl Clone for Widget {
    fn clone(&self) -> (copy: Widget)
        ensures
            copy@ == self@,
    {
        Widget {
            label: self.label.clone(),
            left: self.left,
            top: self.top,
            width: self.width,
            height: self.height,
            series: self.series.clone(),
            typ: self.typ,
            color: self.color,
        }
    }
}

impl Widget {
    /// The style class of the widget's background.
    pub fn color_css_class(&self) -> (class: &'static str)
        ensures
            class@ == self.color.css_class(),
    {
        self.color.to_css_class()
    }

    /// The stroke color for drawing on the widget's background.
    pub fn stroke_css_color(&self) -> (stroke: &'static str)
        ensures
            stroke@ == self.color.css_stroke(),
    {
        self.color.to_css_stroke()
    }
}

/// One reading of a series.
///
/// `time` counts the seconds since the Unix epoch, and `value` is the bit
/// pattern of the single-precision number that was read.
#[derive(Debug, Clone, Copy, PartialEq, Eq, Structural)]
pub struct Point {
    pub time: i64,
    pub value: u32,
}

impl Point {
    /// Where the reading stands on the time axis.
    pub fn x(&self) -> (seconds: i64)
        ensures
            seconds == self.time,
    {
        self.time
    }
}

/// A named list of resolved widgets, in document order.
///
/// Every widget of a dashboard starts at column and row 1 or later and ends
/// within the grid.
pub struct Dashboard {
    name: String,
    widgets: Vec<Widget>,
}

/// The mathematical value of a dashboard.
pub struct DashboardView {
    pub name: Seq<char>,
    pub widgets: Seq<WidgetView>,
}

impl DashboardView {
    /// `columns` is the last column any widget covers, or 0 where there is
    /// no widget.
    pub open spec fn spans_columns(self, columns: int) -> bool {
        &&& forall|i: int| 0 <= i < self.widgets.len() ==> (#[trigger] self.widgets[i]).right() <= columns
        &&& if self.widgets.len() == 0 {
            columns == 0
        } else {
            exists|i: int| 0 <= i < self.widgets.len() && (#[trigger] self.widgets[i]).right() == columns
        }
    }

    /// `rows` is the last row any widget covers, or 0 where there is no
    /// widget.
    pub open spec fn spans_rows(self, rows: int) -> bool {
        &&& forall|i: int| 0 <= i < self.widgets.len() ==> (#[trigger] self.widgets[i]).bottom() <= rows
        &&& if self.widgets.len() == 0 {
            rows == 0
        } else {
            exists|i: int| 0 <= i < self.widgets.len() && (#[trigger] self.widgets[i]).bottom() == rows
        }
    }
}

/// A widget that may stand in a dashboard: it starts on the grid and ends
/// within it.
pub open spec fn on_grid(widget: WidgetView) -> bool {
    widget.left >= 1 && widget.top >= 1 && widget.within_grid()
}

impl View for Dashboard {
    type V = DashboardView;

    closed spec fn view(&self) -> DashboardView {
        DashboardView { name: self.name@, widgets: self.widgets.deep_view() }
    }
}

impl Dashboard {
    #[verifier::type_invariant]
    spec fn all_on_grid(self) -> bool {
        forall|i: int| 0 <= i < self.widgets@.len() ==> on_grid(#[trigger] self.widgets@[i]@)
    }

    /// Collects widgets that are known to lie on the grid.
    pub(crate) fn new(name: String, widgets: Vec<Widget>) -> (dashboard: Dashboard)
        requires
            forall|i: int| 0 <= i < widgets@.len() ==> on_grid(#[trigger] widgets@[i]@),
        ensures
            dashboard@.name == name@,
            dashboard@.widgets == widgets.deep_view(),
    {
        Dashboard { name, widgets }
    }

    /// The name the dashboard is known by.
    pub fn name(&self) -> (name: &str)
        ensures
            name@ == self@.name,
    {
        self.name.as_str()
    }

    /// The widgets, in document order.
    pub fn widgets(&self) -> (widgets: &Vec<Widget>)
        ensures
            widgets.deep_view() == self@.widgets,
            forall|i: int| 0 <= i < widgets@.len() ==> on_grid(#[trigger] widgets@[i]@),
    {
        proof {
            use_type_invariant(self);
        }
        &self.widgets
    }

    /// The number of columns the dashboard covers.
    pub fn width(&self) -> (columns: u16)
        ensures
            self@.spans_columns(columns as int),
    {
        proof {
            use_type_invariant(self);
        }
        let mut columns: u16 = 0;
        let mut i: usize = 0;
        while i < self.widgets.len()
            invariant
                i <= self.widgets.len(),
                forall|j: int| 0 <= j < self.widgets@.len() ==> on_grid(#[trigger] self.widgets@[j]@),
                forall|j: int| 0 <= j < i ==> (#[trigger] self.widgets@[j])@.right() <= columns,
                if i == 0 {
                    columns == 0
                } else {
                    exists|j: int| 0 <= j < i && (#[trigger] self.widgets@[j])@.right() == columns
                },
            decreases self.widgets.len() - i,
        {
            let widget = &self.widgets[i];
            assert(on_grid(self.widgets@[i as int]@));
            let right: u16 = widget.left + widget.width - 1;
            if i == 0 || right > columns {
                columns = right;
            }
            i += 1;
        }
        proof {
            let view = self@;
            assert forall|j: int| 0 <= j < view.widgets.len() implies (#[trigger] view.widgets[j]).right() <= columns by {
                assert(view.widgets[j] == self.widgets@[j]@);
            }
            if view.widgets.len() > 0 {
                let j = choose|j: int| 0 <= j < i && (#[trigger] self.widgets@[j])@.right() == columns;
                assert(view.widgets[j] == self.widgets@[j]@);
            }
        }
        columns
    }

    /// The number of rows the dashboard covers.
    pub fn height(&self) -> (rows: u16)
        ensures
            self@.spans_rows(rows as int),
    {
        proof {
            use_type_invariant(self);
        }
        let mut rows: u16 = 0;
        let mut i: usize = 0;
        while i < self.widgets.len()
            invariant
                i <= self.widgets.len(),
                forall|j: int| 0 <= j < self.widgets@.len() ==> on_grid(#[trigger] self.widgets@[j]@),
                forall|j: int| 0 <= j < i ==> (#[trigger] self.widgets@[j])@.bottom() <= rows,
                if i == 0 {
                    rows == 0
                } else {
                    exists|j: int| 0 <= j < i && (#[trigger] self.widgets@[j])@.bottom() == rows
                },
            decreases self.widgets.len() - i,
        {
            let widget = &self.widgets[i];
            assert(on_grid(self.widgets@[i as int]@));
            let bottom: u16 = widget.top + widget.height - 1;
            if i == 0 || bottom > rows {
                rows = bottom;
            }
            i += 1;
        }
        proof {
            let view = self@;
            assert forall|j: int| 0 <= j < view.widgets.len() implies (#[trigger] view.widgets[j]).bottom() <= rows by {
                assert(view.widgets[j] == self.widgets@[j]@);
            }
            if view.widgets.len() > 0 {
                let j = choose|j: int| 0 <= j < i && (#[trigger] self.widgets@[j])@.bottom() == rows;
                assert(view.widgets[j] == self.widgets@[j]@);
            }
        }
        rows
    }
}

} // verus!
