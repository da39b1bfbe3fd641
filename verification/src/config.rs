//! The declared side of a dashboard: a tree of rows and columns whose leaves
//! are the widgets to draw.

use crate::laws::{
    lemma_flow_extent_nonnegative, lemma_flow_layout_inside_extent,
    lemma_flow_one_widget_per_leaf, lemma_flow_widgets_positive, lemma_one_widget_per_leaf,
};
use crate::layout::{
    advance, ambient, flow_extent, flow_fits, flow_layout, flow_leaf_count, inherit, join,
    positive_or_unset, resolved_color, resolved_size, Defaults, Direction,
};
use crate::model::{
    on_grid, Color, Dashboard, DashboardView, Widget as ModelWidget, WidgetType, WidgetView,
};
use vstd::prelude::*;

verus! {

/// A line of children laid out left to right.
#[derive(Debug)]
pub struct Row {
    /// The children, in the order in which they are laid out.
    pub widgets: Vec<Widget>,
    /// The height of every widget below that is not given another.
    pub widget_height: Option<u16>,
    /// The width of every widget below that is not given another.
    pub widget_width: Option<u16>,
    /// The color of every widget below that is not given another.
    pub widget_color: Option<Color>,
}

/// A stack of children laid out top to bottom.
#[derive(Debug)]
pub struct Column {
    /// The children, in the order in which they are laid out.
    pub widgets: Vec<Widget>,
    /// The height of every widget below that is not given another.
    pub widget_height: Option<u16>,
    /// The width of every widget below that is not given another.
    pub widget_width: Option<u16>,
    /// The color of every widget below that is not given another.
    pub widget_color: Option<Color>,
}

/// A node of the declared tree: one of five kinds of leaf, or a container.
///
/// A leaf may name its own width, height and color. Sizes count cells and are
/// meant to be at least 1; the tree is taken as it is and not checked when
/// it is resolved (see `Widget::has_positive_sizes`).
#[derive(Debug)]
pub enum Widget {
    Label(Label),
    Freshness(Freshness),
    Gauge(Gauge),
    Line(Line),
    Value(Value),
    Row(Row),
    Column(Column),
}

/// A fixed text.
#[derive(Debug)]
pub struct Label {
    pub text: String,
    pub width: Option<u16>,
    pub height: Option<u16>,
    pub color: Option<Color>,
}

/// The age of the newest reading of a series.
#[derive(Debug)]
pub struct Freshness {
    pub series: String,
    pub width: Option<u16>,
    pub height: Option<u16>,
    pub color: Option<Color>,
}

/// The newest reading of a series on a scale from `min` to `max`, each bound
/// held as the bit pattern of a double-precision number.
#[derive(Debug)]
pub struct Gauge {
    pub label: String,
    pub series: String,
    pub min: u64,
    pub max: u64,
    pub width: Option<u16>,
    pub height: Option<u16>,
    pub color: Option<Color>,
}

/// The readings of a series drawn over time.
#[derive(Debug)]
pub struct Line {
    pub label: String,
    pub series: String,
    pub width: Option<u16>,
    pub height: Option<u16>,
    pub color: Option<Color>,
}

/// The newest reading of a series as a number.
#[derive(Debug)]
pub struct Value {
    pub label: String,
    pub series: String,
    pub width: Option<u16>,
    pub height: Option<u16>,
    pub color: Option<Color>,
}

impl Default for Row {
    /// A row without children that sets nothing.
    fn default() -> (row: Row)
        ensures
            row.widgets@.len() == 0,
            row.widget_height is None,
            row.widget_width is None,
            row.widget_color is None,
    {
        Row { widgets: Vec::new(), widget_height: None, widget_width: None, widget_color: None }
    }
}

impl Default for Column {
    /// A column without children that sets nothing.
    fn default() -> (column: Column)
        ensures
            column.widgets@.len() == 0,
            column.widget_height is None,
            column.widget_width is None,
            column.widget_color is None,
    {
        Column { widgets: Vec::new(), widget_height: None, widget_width: None, widget_color: None }
    }
}

/// Why a tree could not be resolved.
#[derive(Debug, Clone, Copy, PartialEq, Eq, Structural)]
pub enum LayoutError {
    /// Some widget would not end within the grid: the column after its last
    /// column, or the row after its last row, could not be addressed.
    Overflow,
}

fn or_ambient<T: Copy>(own: Option<T>, ambient: Option<T>) -> (setting: Option<T>)
    ensures
        setting == inherit(own, ambient),
{
    match own {
        Some(_) => own,
        None => ambient,
    }
}

fn size_or_one(own: Option<u16>, ambient: Option<u16>) -> (cells: u16)
    ensures
        cells == resolved_size(own, ambient),
{
    match or_ambient(own, ambient) {
        Some(cells) => cells,
        None => 1,
    }
}

fn color_or_fallback(own: Option<Color>, ambient: Option<Color>) -> (color: Color)
    ensures
        color == resolved_color(own, ambient),
{
    match or_ambient(own, ambient) {
        Some(color) => color,
        None => Color::default(),
    }
}

fn is_positive_or_unset(setting: Option<u16>) -> (ok: bool)
    ensures
        ok == positive_or_unset(setting),
{
    match setting {
        Some(cells) => cells >= 1,
        None => true,
    }
}

/// Whether each of some siblings sets only sizes of at least one cell.
fn all_have_positive_sizes(widgets: &Vec<Widget>) -> (ok: bool)
    ensures
        ok == forall|i: int| 0 <= i < widgets@.len() ==> (#[trigger] widgets@[i]).positive_sizes(),
    decreases widgets,
{
    let mut i: usize = 0;
    while i < widgets.len()
        invariant
            i <= widgets.len(),
            forall|j: int| 0 <= j < i ==> (#[trigger] widgets@[j]).positive_sizes(),
        decreases widgets.len() - i,
    {
        if !widgets[i].has_positive_sizes() {
            return false;
        }
        i += 1;
    }
    true
}

/// Appends a widget if it ends within the grid, and says what it consumes.
fn place_leaf(
    widget: ModelWidget,
    models: &mut Vec<ModelWidget>,
) -> (result: Result<(u16, u16), LayoutError>)
    ensures
        match result {
            Ok((width, height)) => {
                &&& widget@.within_grid()
                &&& width == widget.width
                &&& height == widget.height
                &&& final(models)@ == old(models)@.push(widget)
            },
            Err(error) => {
                &&& !widget@.within_grid()
                &&& error == LayoutError::Overflow
                &&& final(models)@ == old(models)@
            },
        },
{
    let width = widget.width;
    let height = widget.height;
    if width > u16::MAX - widget.left || height > u16::MAX - widget.top {
        return Err(LayoutError::Overflow);
    }
    models.push(widget);
    Ok((width, height))
}

/// Resolves a run of siblings one after another in the given direction.
fn place_children(
    widgets: &Vec<Widget>,
    direction: Direction,
    left: u16,
    top: u16,
    default_width: Option<u16>,
    default_height: Option<u16>,
    default_color: Option<Color>,
    models: &mut Vec<ModelWidget>,
) -> (result: Result<(u16, u16), LayoutError>)
    ensures
        match result {
            Ok((width, height)) => {
                let defaults = ambient(default_width, default_height, default_color);
                &&& flow_fits(widgets@, direction, left as int, top as int, defaults)
                &&& (width as int, height as int) == flow_extent(widgets@, direction, defaults)
                &&& old(models)@.is_prefix_of(final(models)@)
                &&& final(models).deep_view() == old(models).deep_view() + flow_layout(
                    widgets@,
                    direction,
                    left as int,
                    top as int,
                    defaults,
                )
            },
            Err(error) => {
                let defaults = ambient(default_width, default_height, default_color);
                &&& !flow_fits(widgets@, direction, left as int, top as int, defaults)
                &&& error == LayoutError::Overflow
                &&& final(models)@ == old(models)@
            },
        },
    decreases widgets,
{
    let start = models.len();
    let ghost before = models@;
    let ghost all = widgets@;
    let ghost defaults = ambient(default_width, default_height, default_color);
    let ghost mut placed: Seq<WidgetView> = Seq::empty();
    let mut width: u16 = 0;
    let mut height: u16 = 0;
    let mut i: usize = 0;
    proof {
        assert(all.skip(0) == all);
        lemma_flow_extent_nonnegative(all, direction, defaults);
    }
    while i < widgets.len()
        invariant
            i <= widgets.len(),
            all == widgets@,
            start == before.len(),
            left + width <= u16::MAX,
            top + height <= u16::MAX,
            before == old(models)@,
            before.is_prefix_of(models@),
            defaults == ambient(default_width, default_height, default_color),
            models.deep_view() == old(models).deep_view() + placed,
            flow_extent(all, direction, defaults) == join(
                direction,
                (width as int, height as int),
                flow_extent(all.skip(i as int), direction, defaults),
            ),
            flow_layout(all, direction, left as int, top as int, defaults) == placed + flow_layout(
                all.skip(i as int),
                direction,
                advance(direction, (left as int, top as int), (width as int, height as int)).0,
                advance(direction, (left as int, top as int), (width as int, height as int)).1,
                defaults,
            ),
        decreases widgets.len() - i,
    {
        let ghost rest = all.skip(i as int);
        proof {
            assert(rest.drop_first() == all.skip(i + 1));
            lemma_flow_extent_nonnegative(rest.drop_first(), direction, defaults);
        }
        let (child_left, child_top) = match direction {
            Direction::Across => (left + width, top),
            Direction::Down => (left, top + height),
        };
        match widgets[i].to_model(
            child_left,
            child_top,
            default_width,
            default_height,
            default_color,
            models,
        ) {
            Ok((child_width, child_height)) => {
                match direction {
                    Direction::Across => {
                        width = width + child_width;
                        if child_height > height {
                            height = child_height;
                        }
                    },
                    Direction::Down => {
                        height = height + child_height;
                        if child_width > width {
                            width = child_width;
                        }
                    },
                }
                proof {
                    placed = placed + widgets@[i as int].layout(
                        child_left as int,
                        child_top as int,
                        defaults,
                    );
                }
            },
            Err(error) => {
                models.truncate(start);
                return Err(error);
            },
        }
        i += 1;
    }
    Ok((width, height))
}

/// What resolving a top-level run of widgets under a name yields: the
/// widgets are stacked like the children of a column without settings, from
/// the first cell of the grid and with no ambient defaults.
pub open spec fn resolution(widgets: Seq<Widget>, name: Seq<char>) -> Result<
    DashboardView,
    LayoutError,
> {
    if flow_fits(widgets, Direction::Down, 1, 1, Defaults::none()) {
        Ok(
            DashboardView {
                name,
                widgets: flow_layout(widgets, Direction::Down, 1, 1, Defaults::none()),
            },
        )
    } else {
        Err(LayoutError::Overflow)
    }
}

/// The mathematical value of what `to_dashboard` returns.
pub open spec fn outcome(result: Result<Dashboard, LayoutError>) -> Result<
    DashboardView,
    LayoutError,
> {
    match result {
        Ok(dashboard) => Ok(dashboard@),
        Err(error) => Err(error),
    }
}

impl Widget {
    /// Whether every size that is set in this subtree is at least one cell,
    /// as the sizes of a well-formed tree are.
    pub fn has_positive_sizes(&self) -> (ok: bool)
        ensures
            ok == self.positive_sizes(),
        decreases self,
    {
        assert(!self.is_container() ==> self.children().len() == 0);
        match self {
            Widget::Label(w) => is_positive_or_unset(w.width) && is_positive_or_unset(w.height),
            Widget::Freshness(w) => is_positive_or_unset(w.width) && is_positive_or_unset(
                w.height,
            ),
            Widget::Gauge(w) => is_positive_or_unset(w.width) && is_positive_or_unset(w.height),
            Widget::Line(w) => is_positive_or_unset(w.width) && is_positive_or_unset(w.height),
            Widget::Value(w) => is_positive_or_unset(w.width) && is_positive_or_unset(w.height),
            Widget::Row(c) => is_positive_or_unset(c.widget_width) && is_positive_or_unset(
                c.widget_height,
            ) && all_have_positive_sizes(&c.widgets),
            Widget::Column(c) => is_positive_or_unset(c.widget_width) && is_positive_or_unset(
                c.widget_height,
            ) && all_have_positive_sizes(&c.widgets),
        }
    }

    /// Resolves the top-level widgets of a dashboard.
    ///
    /// The widgets are wrapped in a column that sets nothing, and that column
    /// is resolved from the first cell of the grid with no ambient defaults.
    /// Fails, with no dashboard, where some widget would not end within the
    /// grid.
    pub fn to_dashboard(widgets: Vec<Widget>, name: String) -> (result: Result<
        Dashboard,
        LayoutError,
    >)
        ensures
            outcome(result) == resolution(widgets@, name@),
            result matches Ok(dashboard) ==> {
                &&& dashboard@.widgets.len() == flow_leaf_count(widgets@)
                &&& (forall|i: int|
                    0 <= i < widgets@.len() ==> (#[trigger] widgets@[i]).positive_sizes())
                    ==> forall|j: int|
                    0 <= j < dashboard@.widgets.len() ==> (#[trigger] dashboard@.widgets[j]).positive()
            },
    {
        let root = Widget::Column(
            Column { widgets, widget_height: None, widget_width: None, widget_color: None },
        );
        let mut models: Vec<ModelWidget> = Vec::new();
        match root.to_model(1, 1, None, None, None, &mut models) {
            Ok(_) => {
                proof {
                    let none = Defaults::none();
                    assert(ambient(None, None, None).below(root) == none);
                    lemma_flow_layout_inside_extent(root.children(), Direction::Down, 1, 1, none);
                    lemma_flow_one_widget_per_leaf(root.children(), Direction::Down, 1, 1, none);
                    if forall|i: int|
                        0 <= i < widgets@.len() ==> (#[trigger] widgets@[i]).positive_sizes() {
                        lemma_flow_widgets_positive(root.children(), Direction::Down, 1, 1, none);
                    }
                    assert forall|i: int| 0 <= i < models@.len() implies on_grid(
                        #[trigger] models@[i]@,
                    ) by {
                        assert(models@[i]@ == models.deep_view()[i]);
                    }
                }
                Ok(Dashboard::new(name, models))
            },
            Err(error) => Err(error),
        }
    }

    /// Resolves this subtree from `(left, top)` under the given ambient
    /// defaults and appends its widgets to `models`, in document order.
    ///
    /// Returns the width and height the subtree consumes. Where some widget
    /// would not end within the grid, nothing is appended and the
    /// resolution fails as a whole.
    pub fn to_model(
        &self,
        left: u16,
        top: u16,
        default_width: Option<u16>,
        default_height: Option<u16>,
        default_color: Option<Color>,
        models: &mut Vec<ModelWidget>,
    ) -> (result: Result<(u16, u16), LayoutError>)
        ensures
            match result {
                Ok((width, height)) => {
                    let defaults = ambient(default_width, default_height, default_color);
                    &&& self.fits(left as int, top as int, defaults)
                    &&& (width as int, height as int) == self.extent(defaults)
                    &&& old(models)@.is_prefix_of(final(models)@)
                    &&& final(models)@.len() == old(models)@.len() + self.leaf_count()
                    &&& final(models).deep_view() == old(models).deep_view() + self.layout(
                        left as int,
                        top as int,
                        defaults,
                    )
                },
                Err(error) => {
                    let defaults = ambient(default_width, default_height, default_color);
                    &&& !self.fits(left as int, top as int, defaults)
                    &&& error == LayoutError::Overflow
                    &&& final(models)@ == old(models)@
                },
            },
        decreases self,
    {
        let ghost before = models.deep_view();
        let result = match self {
            Widget::Row(row) => place_children(
                &row.widgets,
                Direction::Across,
                left,
                top,
                or_ambient(row.widget_width, default_width),
                or_ambient(row.widget_height, default_height),
                or_ambient(row.widget_color, default_color),
                models,
            ),
            Widget::Column(column) => place_children(
                &column.widgets,
                Direction::Down,
                left,
                top,
                or_ambient(column.widget_width, default_width),
                or_ambient(column.widget_height, default_height),
                or_ambient(column.widget_color, default_color),
                models,
            ),
            Widget::Freshness(widget) => place_leaf(
                ModelWidget {
                    label: String::new(),
                    left,
                    top,
                    width: size_or_one(widget.width, default_width),
                    height: size_or_one(widget.height, default_height),
                    series: widget.series.clone(),
                    typ: WidgetType::Freshness,
                    color: color_or_fallback(widget.color, default_color),
                },
                models,
            ),
            Widget::Gauge(widget) => place_leaf(
                ModelWidget {
                    label: widget.label.clone(),
                    left,
                    top,
                    width: size_or_one(widget.width, default_width),
                    height: size_or_one(widget.height, default_height),
                    series: widget.series.clone(),
                    typ: WidgetType::Gauge { min: widget.min, max: widget.max },
                    color: color_or_fallback(widget.color, default_color),
                },
                models,
            ),
            Widget::Line(widget) => place_leaf(
                ModelWidget {
                    label: widget.label.clone(),
                    left,
                    top,
                    width: size_or_one(widget.width, default_width),
                    height: size_or_one(widget.height, default_height),
                    series: widget.series.clone(),
                    typ: WidgetType::Line,
                    color: color_or_fallback(widget.color, default_color),
                },
                models,
            ),
            Widget::Value(widget) => place_leaf(
                ModelWidget {
                    label: widget.label.clone(),
                    left,
                    top,
                    width: size_or_one(widget.width, default_width),
                    height: size_or_one(widget.height, default_height),
                    series: widget.series.clone(),
                    typ: WidgetType::Value,
                    color: color_or_fallback(widget.color, default_color),
                },
                models,
            ),
            Widget::Label(widget) => place_leaf(
                ModelWidget {
                    label: widget.text.clone(),
                    left,
                    top,
                    width: size_or_one(widget.width, default_width),
                    height: size_or_one(widget.height, default_height),
                    series: String::new(),
                    typ: WidgetType::Label,
                    color: color_or_fallback(widget.color, default_color),
                },
                models,
            ),
        };
        proof {
            let defaults = ambient(default_width, default_height, default_color);
            if self.is_container() {
                assert(defaults.below(*self) == ambient(
                    inherit(self.width_setting(), default_width),
                    inherit(self.height_setting(), default_height),
                    inherit(self.color_setting(), default_color),
                ));
            }
            if result is Ok {
                assert(models.deep_view() == before + self.layout(left as int, top as int, defaults));
                lemma_one_widget_per_leaf(*self, left as int, top as int, defaults);
            }
        }
        result
    }
}

/// The dashboards that are served, each under its own name.
pub struct Dashboards {
    entries: Vec<(String, Dashboard)>,
}

/// The dashboards that a list of named entries holds. Where a name occurs
/// twice, the later entry counts.
spec fn named(entries: Seq<(String, Dashboard)>) -> Map<Seq<char>, DashboardView>
    decreases entries.len(),
{
    if entries.len() == 0 {
        Map::empty()
    } else {
        named(entries.drop_last()).insert(entries.last().0@, entries.last().1@)
    }
}

/// No name occurs twice among the entries.
spec fn distinct_names(entries: Seq<(String, Dashboard)>) -> bool {
    forall|i: int, j: int|
        0 <= i < j < entries.len() ==> (#[trigger] entries[i]).0@ != (#[trigger] entries[j]).0@
}

/// A name that stands among the entries is held with the dashboard that
/// stands beside it, and no other name is held.
proof fn lemma_named_entries(entries: Seq<(String, Dashboard)>)
    requires
        distinct_names(entries),
    ensures
        forall|i: int|
            0 <= i < entries.len() ==> named(entries).contains_key((#[trigger] entries[i]).0@)
                && named(entries)[entries[i].0@] == entries[i].1@,
        forall|name: Seq<char>| #[trigger]
            named(entries).contains_key(name) ==> exists|i: int|
                0 <= i < entries.len() && (#[trigger] entries[i]).0@ == name,
    decreases entries.len(),
{
    if entries.len() > 0 {
        let earlier = entries.drop_last();
        lemma_named_entries(earlier);
        assert forall|i: int| 0 <= i < entries.len() implies named(entries).contains_key(
            (#[trigger] entries[i]).0@,
        ) && named(entries)[entries[i].0@] == entries[i].1@ by {
            if i < entries.len() - 1 {
                assert(earlier[i] == entries[i]);
            }
        }
        assert forall|name: Seq<char>| #[trigger] named(entries).contains_key(name) implies exists|
            i: int,
        |
            0 <= i < entries.len() && (#[trigger] entries[i]).0@ == name by {
            if name == entries.last().0@ {
                assert(entries[entries.len() - 1].0@ == name);
            } else {
                assert(named(earlier).contains_key(name));
                let i = choose|i: int| 0 <= i < earlier.len() && (#[trigger] earlier[i]).0@ == name;
                assert(entries[i] == earlier[i]);
            }
        }
    }
}

/// Replacing the dashboard of one entry changes what is held under its name
/// and nothing else.
proof fn lemma_named_update(entries: Seq<(String, Dashboard)>, i: int, entry: (String, Dashboard))
    requires
        distinct_names(entries),
        0 <= i < entries.len(),
        entry.0@ == entries[i].0@,
    ensures
        distinct_names(entries.update(i, entry)),
        named(entries.update(i, entry)) == named(entries).insert(entry.0@, entry.1@),
    decreases entries.len(),
{
    let updated = entries.update(i, entry);
    assert(distinct_names(updated)) by {
        assert forall|a: int, b: int| 0 <= a < b < updated.len() implies (#[trigger] updated[a]).0@
            != (#[trigger] updated[b]).0@ by {
            assert(updated[a].0@ == entries[a].0@);
            assert(updated[b].0@ == entries[b].0@);
        }
    }
    if i == entries.len() - 1 {
        assert(updated.drop_last() == entries.drop_last());
        assert(named(updated) == named(entries).insert(entry.0@, entry.1@));
    } else {
        let earlier = entries.drop_last();
        assert(updated.drop_last() == earlier.update(i, entry));
        assert(updated.last() == entries.last());
        assert(earlier[i] == entries[i]);
        lemma_named_update(earlier, i, entry);
        assert(named(updated) == named(entries).insert(entry.0@, entry.1@));
    }
}

impl View for Dashboards {
    type V = Map<Seq<char>, DashboardView>;

    closed spec fn view(&self) -> Map<Seq<char>, DashboardView> {
        named(self.entries@)
    }
}

impl Dashboards {
    #[verifier::type_invariant]
    spec fn names_are_distinct(self) -> bool {
        distinct_names(self.entries@)
    }

    /// No dashboards.
    pub fn new() -> (dashboards: Dashboards)
        ensures
            dashboards@ == Map::<Seq<char>, DashboardView>::empty(),
    {
        Dashboards { entries: Vec::new() }
    }

    /// Holds `dashboard` under `name`, in place of what was held under that
    /// name before.
    pub fn insert(&mut self, name: String, dashboard: Dashboard)
        ensures
            final(self)@ == old(self)@.insert(name@, dashboard@),
    {
        proof {
            use_type_invariant(&*self);
        }
        let mut entries: Vec<(String, Dashboard)> = Vec::new();
        std::mem::swap(&mut self.entries, &mut entries);
        let ghost before = entries@;
        let mut i: usize = 0;
        while i < entries.len() && !(entries[i].0 == name)
            invariant
                i <= entries.len(),
                entries@ == before,
                forall|j: int| 0 <= j < i ==> (#[trigger] entries@[j]).0@ != name@,
            decreases entries.len() - i,
        {
            i += 1;
        }
        proof {
            if i < entries.len() {
                lemma_named_update(before, i as int, (name, dashboard));
            } else {
                assert(before.push((name, dashboard)).drop_last() == before);
            }
        }
        if i < entries.len() {
            entries[i] = (name, dashboard);
        } else {
            entries.push((name, dashboard));
        }
        std::mem::swap(&mut self.entries, &mut entries);
    }

    /// The dashboard that is held under `name`, if there is one.
    pub fn get(&self, name: &str) -> (found: Option<&Dashboard>)
        ensures
            match found {
                Some(dashboard) => self@.contains_key(name@) && dashboard@ == self@[name@],
                None => !self@.contains_key(name@),
            },
    {
        let wanted = name.to_string();
        let mut i: usize = 0;
        while i < self.entries.len() && !(self.entries[i].0 == wanted)
            invariant
                i <= self.entries.len(),
                wanted@ == name@,
                forall|j: int| 0 <= j < i ==> (#[trigger] self.entries@[j]).0@ != name@,
            decreases self.entries.len() - i,
        {
            i += 1;
        }
        proof {
            use_type_invariant(self);
            lemma_named_entries(self.entries@);
        }
        if i < self.entries.len() {
            Some(&self.entries[i].1)
        } else {
            None
        }
    }

    /// The names under which a dashboard is held, each once.
    pub fn list(&self) -> (names: Vec<String>)
        ensures
            forall|i: int| 0 <= i < names@.len() ==> self@.contains_key(#[trigger] names@[i]@),
            forall|name: Seq<char>| #[trigger]
                self@.contains_key(name) ==> exists|i: int|
                    0 <= i < names@.len() && (#[trigger] names@[i])@ == name,
            forall|i: int, j: int|
                0 <= i < j < names@.len() ==> (#[trigger] names@[i])@ != (#[trigger] names@[j])@,
    {
        let mut names: Vec<String> = Vec::new();
        let mut i: usize = 0;
        while i < self.entries.len()
            invariant
                i <= self.entries.len(),
                names@.len() == i,
                forall|j: int| 0 <= j < i ==> (#[trigger] names@[j])@ == self.entries@[j].0@,
            decreases self.entries.len() - i,
        {
            names.push(self.entries[i].0.clone());
            i += 1;
        }
        proof {
            use_type_invariant(self);
            lemma_named_entries(self.entries@);
            assert forall|name: Seq<char>| #[trigger] self@.contains_key(name) implies exists|
                i: int,
            |
                0 <= i < names@.len() && (#[trigger] names@[i])@ == name by {
                let i = choose|i: int|
                    0 <= i < self.entries@.len() && (#[trigger] self.entries@[i]).0@ == name;
                assert(names@[i]@ == name);
            }
        }
        names
    }
}

} // verus!
