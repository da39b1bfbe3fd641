//! What holds of every resolution: counts, order, positions, additivity,
//! precedence of settings, and when a tree fits the grid.

use crate::config::{outcome, resolution, Column, LayoutError, Row, Widget};
use crate::layout::{
    advance, flow_extent, flow_fits, flow_layout, flow_leaf_count, flow_leaves, larger,
    resolved_color, resolved_size, Defaults, Direction,
};
use crate::model::{Color, Dashboard, WidgetView};
use vstd::prelude::*;

verus! {

// ---------------------------------------------------------------------------
// Counting
// ---------------------------------------------------------------------------

/// A subtree resolves to as many widgets as it has leaves, wherever it starts
/// and whatever the ambient defaults are. Containers add none of their own.
pub proof fn lemma_one_widget_per_leaf(node: Widget, left: int, top: int, defaults: Defaults)
    ensures
        node.layout(left, top, defaults).len() == node.leaf_count(),
        node.leaves().len() == node.leaf_count(),
    decreases node,
{
    if node.is_container() {
        lemma_flow_one_widget_per_leaf(
            node.children(),
            node.direction(),
            left,
            top,
            defaults.below(node),
        );
    }
}

/// A run of siblings resolves to as many widgets as there are leaves below
/// it.
pub proof fn lemma_flow_one_widget_per_leaf(
    children: Seq<Widget>,
    direction: Direction,
    left: int,
    top: int,
    defaults: Defaults,
)
    ensures
        flow_layout(children, direction, left, top, defaults).len() == flow_leaf_count(children),
        flow_leaves(children).len() == flow_leaf_count(children),
    decreases children,
{
    if children.len() > 0 {
        let first = children.first();
        let next = advance(direction, (left, top), first.extent(defaults));
        lemma_one_widget_per_leaf(first, left, top, defaults);
        lemma_flow_one_widget_per_leaf(children.drop_first(), direction, next.0, next.1, defaults);
    }
}

// ---------------------------------------------------------------------------
// Order and content
// ---------------------------------------------------------------------------

/// Whether `widget` is what `leaf` resolves to, as far as the leaf alone
/// decides it: its caption, series and kind, and each size or color that the
/// leaf names for itself.
pub open spec fn resolves(widget: WidgetView, leaf: Widget) -> bool {
    &&& !leaf.is_container()
    &&& widget.label == leaf.label_text()
    &&& widget.series == leaf.series_name()
    &&& widget.typ == leaf.kind()
    &&& leaf.width_setting() matches Some(width) ==> widget.width == width
    &&& leaf.height_setting() matches Some(height) ==> widget.height == height
    &&& leaf.color_setting() matches Some(color) ==> widget.color == color
}

/// The resolved widgets stand in document order: the widget at each place is
/// the resolution of the leaf at the same place of the tree's depth-first
/// walk. What a leaf sets for itself is what its widget gets, however deep
/// the leaf is nested and whatever its ancestors set.
pub proof fn lemma_document_order(node: Widget, left: int, top: int, defaults: Defaults)
    ensures
        node.layout(left, top, defaults).len() == node.leaves().len(),
        forall|i: int|
            0 <= i < node.leaves().len() ==> resolves(
                #[trigger] node.layout(left, top, defaults)[i],
                node.leaves()[i],
            ),
    decreases node,
{
    if node.is_container() {
        lemma_flow_document_order(
            node.children(),
            node.direction(),
            left,
            top,
            defaults.below(node),
        );
    }
}

/// The widgets of a run of siblings stand in the order of the leaves below
/// the run.
pub proof fn lemma_flow_document_order(
    children: Seq<Widget>,
    direction: Direction,
    left: int,
    top: int,
    defaults: Defaults,
)
    ensures
        flow_layout(children, direction, left, top, defaults).len() == flow_leaves(children).len(),
        forall|i: int|
            0 <= i < flow_leaves(children).len() ==> resolves(
                #[trigger] flow_layout(children, direction, left, top, defaults)[i],
                flow_leaves(children)[i],
            ),
    decreases children,
{
    if children.len() > 0 {
        let first = children.first();
        let rest = children.drop_first();
        let next = advance(direction, (left, top), first.extent(defaults));
        lemma_document_order(first, left, top, defaults);
        lemma_flow_document_order(rest, direction, next.0, next.1, defaults);
        let head = first.layout(left, top, defaults);
        let tail = flow_layout(rest, direction, next.0, next.1, defaults);
        let all = flow_layout(children, direction, left, top, defaults);
        assert(all == head + tail);
        assert(flow_leaves(children) == first.leaves() + flow_leaves(rest));
        assert forall|i: int| 0 <= i < flow_leaves(children).len() implies resolves(
            #[trigger] all[i],
            flow_leaves(children)[i],
        ) by {
            if i < head.len() {
                assert(all[i] == head[i]);
                assert(flow_leaves(children)[i] == first.leaves()[i]);
            } else {
                assert(all[i] == tail[i - head.len()]);
                assert(flow_leaves(children)[i] == flow_leaves(rest)[i - head.len()]);
            }
        }
    }
}

// ---------------------------------------------------------------------------
// Positions
// ---------------------------------------------------------------------------

/// No subtree consumes a negative width or height.
pub proof fn lemma_extent_nonnegative(node: Widget, defaults: Defaults)
    ensures
        node.extent(defaults).0 >= 0,
        node.extent(defaults).1 >= 0,
    decreases node,
{
    if node.is_container() {
        lemma_flow_extent_nonnegative(node.children(), node.direction(), defaults.below(node));
    }
}

/// No run of siblings consumes a negative width or height.
pub proof fn lemma_flow_extent_nonnegative(
    children: Seq<Widget>,
    direction: Direction,
    defaults: Defaults,
)
    ensures
        flow_extent(children, direction, defaults).0 >= 0,
        flow_extent(children, direction, defaults).1 >= 0,
    decreases children,
{
    if children.len() > 0 {
        lemma_extent_nonnegative(children.first(), defaults);
        lemma_flow_extent_nonnegative(children.drop_first(), direction, defaults);
    }
}

/// Whether a widget lies inside the box that starts at `(left, top)` and has
/// the given width and height.
pub open spec fn inside(widget: WidgetView, left: int, top: int, extent: (int, int)) -> bool {
    &&& left <= widget.left
    &&& top <= widget.top
    &&& widget.left + widget.width <= left + extent.0
    &&& widget.top + widget.height <= top + extent.1
}

/// Every widget of a subtree lies inside the box that the subtree consumes.
pub proof fn lemma_layout_inside_extent(node: Widget, left: int, top: int, defaults: Defaults)
    ensures
        forall|i: int|
            0 <= i < node.layout(left, top, defaults).len() ==> inside(
                #[trigger] node.layout(left, top, defaults)[i],
                left,
                top,
                node.extent(defaults),
            ),
    decreases node,
{
    if node.is_container() {
        lemma_flow_layout_inside_extent(
            node.children(),
            node.direction(),
            left,
            top,
            defaults.below(node),
        );
        assert(node.layout(left, top, defaults) == flow_layout(
            node.children(),
            node.direction(),
            left,
            top,
            defaults.below(node),
        ));
    }
}

/// Every widget of a run of siblings lies inside the box that the run
/// consumes.
pub proof fn lemma_flow_layout_inside_extent(
    children: Seq<Widget>,
    direction: Direction,
    left: int,
    top: int,
    defaults: Defaults,
)
    ensures
        forall|i: int|
            0 <= i < flow_layout(children, direction, left, top, defaults).len() ==> inside(
                #[trigger] flow_layout(children, direction, left, top, defaults)[i],
                left,
                top,
                flow_extent(children, direction, defaults),
            ),
    decreases children,
{
    if children.len() > 0 {
        let first = children.first();
        let rest = children.drop_first();
        let next = advance(direction, (left, top), first.extent(defaults));
        lemma_layout_inside_extent(first, left, top, defaults);
        lemma_flow_layout_inside_extent(rest, direction, next.0, next.1, defaults);
        lemma_extent_nonnegative(first, defaults);
        lemma_flow_extent_nonnegative(rest, direction, defaults);
        let head = first.layout(left, top, defaults);
        let tail = flow_layout(rest, direction, next.0, next.1, defaults);
        let all = flow_layout(children, direction, left, top, defaults);
        assert(all == head + tail);
        assert forall|i: int| 0 <= i < all.len() implies inside(
            #[trigger] all[i],
            left,
            top,
            flow_extent(children, direction, defaults),
        ) by {
            if i < head.len() {
                assert(all[i] == head[i]);
            } else {
                assert(all[i] == tail[i - head.len()]);
            }
        }
    }
}

/// Where every size that is set, in the tree or among the ambient defaults,
/// is at least one cell, and the origin lies on the grid, every resolved
/// widget starts on the grid and covers at least one cell.
pub proof fn lemma_widgets_positive(node: Widget, left: int, top: int, defaults: Defaults)
    requires
        node.positive_sizes(),
        defaults.positive(),
        left >= 1,
        top >= 1,
    ensures
        forall|i: int|
            0 <= i < node.layout(left, top, defaults).len() ==> (#[trigger] node.layout(
                left,
                top,
                defaults,
            )[i]).positive(),
    decreases node,
{
    if node.is_container() {
        lemma_flow_widgets_positive(
            node.children(),
            node.direction(),
            left,
            top,
            defaults.below(node),
        );
        assert(node.layout(left, top, defaults) == flow_layout(
            node.children(),
            node.direction(),
            left,
            top,
            defaults.below(node),
        ));
    }
}

/// The widgets of a run of siblings are positive where the siblings' sizes,
/// the defaults and the origin are.
pub proof fn lemma_flow_widgets_positive(
    children: Seq<Widget>,
    direction: Direction,
    left: int,
    top: int,
    defaults: Defaults,
)
    requires
        forall|i: int| 0 <= i < children.len() ==> (#[trigger] children[i]).positive_sizes(),
        defaults.positive(),
        left >= 1,
        top >= 1,
    ensures
        forall|i: int|
            0 <= i < flow_layout(children, direction, left, top, defaults).len() ==> (
            #[trigger] flow_layout(children, direction, left, top, defaults)[i]).positive(),
    decreases children,
{
    if children.len() > 0 {
        let first = children.first();
        let rest = children.drop_first();
        let next = advance(direction, (left, top), first.extent(defaults));
        lemma_extent_nonnegative(first, defaults);
        lemma_widgets_positive(first, left, top, defaults);
        assert forall|i: int| 0 <= i < rest.len() implies (#[trigger] rest[i]).positive_sizes() by {
            assert(rest[i] == children[i + 1]);
        }
        lemma_flow_widgets_positive(rest, direction, next.0, next.1, defaults);
        let head = first.layout(left, top, defaults);
        let tail = flow_layout(rest, direction, next.0, next.1, defaults);
        let all = flow_layout(children, direction, left, top, defaults);
        assert(all == head + tail);
        assert forall|i: int| 0 <= i < all.len() implies (#[trigger] all[i]).positive() by {
            if i < head.len() {
                assert(all[i] == head[i]);
            } else {
                assert(all[i] == tail[i - head.len()]);
            }
        }
    }
}

/// Whether some widget ends exactly at column `edge`, or `edge` is the
/// column `left` at which nothing has been consumed yet.
pub open spec fn reaches_column(widgets: Seq<WidgetView>, left: int, edge: int) -> bool {
    edge == left || exists|i: int|
        0 <= i < widgets.len() && (#[trigger] widgets[i]).left + widgets[i].width == edge
}

/// Whether some widget ends exactly at row `edge`, or `edge` is the row
/// `top` at which nothing has been consumed yet.
pub open spec fn reaches_row(widgets: Seq<WidgetView>, top: int, edge: int) -> bool {
    edge == top || exists|i: int|
        0 <= i < widgets.len() && (#[trigger] widgets[i]).top + widgets[i].height == edge
}

/// The box a subtree consumes is tight: unless the subtree consumes no width,
/// one of its widgets ends where the box ends, and likewise for the height.
pub proof fn lemma_extent_reached(node: Widget, left: int, top: int, defaults: Defaults)
    ensures
        reaches_column(node.layout(left, top, defaults), left, left + node.extent(defaults).0),
        reaches_row(node.layout(left, top, defaults), top, top + node.extent(defaults).1),
    decreases node,
{
    let widgets = node.layout(left, top, defaults);
    if node.is_container() {
        lemma_flow_extent_reached(
            node.children(),
            node.direction(),
            left,
            top,
            defaults.below(node),
        );
    } else {
        assert(widgets[0].left + widgets[0].width == left + node.extent(defaults).0);
        assert(widgets[0].top + widgets[0].height == top + node.extent(defaults).1);
    }
}

/// The box a run of siblings consumes is tight in both directions.
pub proof fn lemma_flow_extent_reached(
    children: Seq<Widget>,
    direction: Direction,
    left: int,
    top: int,
    defaults: Defaults,
)
    ensures
        reaches_column(
            flow_layout(children, direction, left, top, defaults),
            left,
            left + flow_extent(children, direction, defaults).0,
        ),
        reaches_row(
            flow_layout(children, direction, left, top, defaults),
            top,
            top + flow_extent(children, direction, defaults).1,
        ),
    decreases children,
{
    if children.len() > 0 {
        let first = children.first();
        let rest = children.drop_first();
        let next = advance(direction, (left, top), first.extent(defaults));
        let head = first.layout(left, top, defaults);
        let tail = flow_layout(rest, direction, next.0, next.1, defaults);
        let all = flow_layout(children, direction, left, top, defaults);
        lemma_extent_reached(first, left, top, defaults);
        lemma_flow_extent_reached(rest, direction, next.0, next.1, defaults);
        lemma_extent_nonnegative(first, defaults);
        lemma_flow_extent_nonnegative(rest, direction, defaults);
        assert(all == head + tail);
        assert forall|edge: int| reaches_column(head, left, edge) && edge != left implies exists|
            i: int,
        |
            0 <= i < all.len() && (#[trigger] all[i]).left + all[i].width == edge by {
            let i = choose|i: int|
                0 <= i < head.len() && (#[trigger] head[i]).left + head[i].width == edge;
            assert(all[i] == head[i]);
        }
        assert forall|edge: int|
            reaches_column(tail, next.0, edge) && edge != next.0 implies exists|i: int|
            0 <= i < all.len() && (#[trigger] all[i]).left + all[i].width == edge by {
            let i = choose|i: int|
                0 <= i < tail.len() && (#[trigger] tail[i]).left + tail[i].width == edge;
            assert(all[head.len() + i] == tail[i]);
        }
        assert forall|edge: int| reaches_row(head, top, edge) && edge != top implies exists|i: int|
            0 <= i < all.len() && (#[trigger] all[i]).top + all[i].height == edge by {
            let i = choose|i: int|
                0 <= i < head.len() && (#[trigger] head[i]).top + head[i].height == edge;
            assert(all[i] == head[i]);
        }
        assert forall|edge: int|
            reaches_row(tail, next.1, edge) && edge != next.1 implies exists|i: int|
            0 <= i < all.len() && (#[trigger] all[i]).top + all[i].height == edge by {
            let i = choose|i: int|
                0 <= i < tail.len() && (#[trigger] tail[i]).top + tail[i].height == edge;
            assert(all[head.len() + i] == tail[i]);
        }
    }
}

/// A subtree fits the grid exactly when each of its widgets ends within the
/// grid: resolution fails if and only if some widget would not.
pub proof fn lemma_fits_iff_widgets_within_grid(
    node: Widget,
    left: int,
    top: int,
    defaults: Defaults,
)
    requires
        0 <= left <= u16::MAX,
        0 <= top <= u16::MAX,
    ensures
        node.fits(left, top, defaults) <==> forall|i: int|
            0 <= i < node.layout(left, top, defaults).len() ==> (#[trigger] node.layout(
                left,
                top,
                defaults,
            )[i]).within_grid(),
{
    lemma_layout_inside_extent(node, left, top, defaults);
    lemma_extent_reached(node, left, top, defaults);
}

/// A run of siblings fits the grid exactly when each of its widgets ends
/// within the grid.
pub proof fn lemma_flow_fits_iff_widgets_within_grid(
    children: Seq<Widget>,
    direction: Direction,
    left: int,
    top: int,
    defaults: Defaults,
)
    requires
        0 <= left <= u16::MAX,
        0 <= top <= u16::MAX,
    ensures
        flow_fits(children, direction, left, top, defaults) <==> forall|i: int|
            0 <= i < flow_layout(children, direction, left, top, defaults).len() ==> (
            #[trigger] flow_layout(children, direction, left, top, defaults)[i]).within_grid(),
{
    lemma_flow_layout_inside_extent(children, direction, left, top, defaults);
    lemma_flow_extent_reached(children, direction, left, top, defaults);
}

// ---------------------------------------------------------------------------
// Additivity
// ---------------------------------------------------------------------------

/// The sum of some numbers; 0 where there is none.
pub open spec fn sum(numbers: Seq<int>) -> int
    decreases numbers.len(),
{
    if numbers.len() == 0 {
        0
    } else {
        numbers.first() + sum(numbers.drop_first())
    }
}

/// The largest of some numbers that are not negative; 0 where there is
/// none.
pub open spec fn highest(numbers: Seq<int>) -> int
    decreases numbers.len(),
{
    if numbers.len() == 0 {
        0
    } else {
        larger(numbers.first(), highest(numbers.drop_first()))
    }
}

/// The width each sibling consumes, in order.
pub open spec fn consumed_widths(children: Seq<Widget>, defaults: Defaults) -> Seq<int> {
    Seq::new(children.len(), |j: int| children[j].extent(defaults).0)
}

/// The height each sibling consumes, in order.
pub open spec fn consumed_heights(children: Seq<Widget>, defaults: Defaults) -> Seq<int> {
    Seq::new(children.len(), |j: int| children[j].extent(defaults).1)
}

/// The number of leaves below each sibling, in order.
pub open spec fn leaf_counts(children: Seq<Widget>) -> Seq<int> {
    Seq::new(children.len(), |j: int| children[j].leaf_count() as int)
}

/// The widgets that the child at place `i` contributes to the widgets of
/// its parent: those after the widgets of the children before it, as many
/// as it has leaves.
pub open spec fn share(widgets: Seq<WidgetView>, counts: Seq<int>, i: int) -> Seq<WidgetView> {
    widgets.subrange(sum(counts.take(i)), sum(counts.take(i + 1)))
}

proof fn lemma_sum_of_longer_prefix(numbers: Seq<int>, i: int)
    requires
        0 < i <= numbers.len(),
    ensures
        sum(numbers.take(i)) == numbers[0] + sum(numbers.drop_first().take(i - 1)),
{
    assert(numbers.take(i).drop_first() == numbers.drop_first().take(i - 1));
}

proof fn lemma_sum_of_prefix_bounded(numbers: Seq<int>, i: int)
    requires
        forall|j: int| 0 <= j < numbers.len() ==> numbers[j] >= 0,
        0 <= i <= numbers.len(),
    ensures
        0 <= sum(numbers.take(i)) <= sum(numbers),
    decreases numbers.len(),
{
    if numbers.len() > 0 {
        if i == 0 {
            lemma_sum_of_prefix_bounded(numbers.drop_first(), 0);
        } else {
            lemma_sum_of_longer_prefix(numbers, i);
            lemma_sum_of_prefix_bounded(numbers.drop_first(), i - 1);
        }
    }
}

proof fn lemma_sum_of_leaf_counts(children: Seq<Widget>)
    ensures
        sum(leaf_counts(children)) == flow_leaf_count(children),
    decreases children.len(),
{
    if children.len() > 0 {
        lemma_sum_of_leaf_counts(children.drop_first());
        assert(leaf_counts(children).drop_first() == leaf_counts(children.drop_first()));
    }
}

/// The share of each child lies within the widgets of the run, after the
/// shares of the children before it.
pub proof fn lemma_shares_in_range(children: Seq<Widget>, i: int)
    requires
        0 <= i < children.len(),
    ensures
        0 <= sum(leaf_counts(children).take(i)) <= sum(leaf_counts(children).take(i + 1))
            <= flow_leaf_count(children),
{
    let counts = leaf_counts(children);
    lemma_sum_of_leaf_counts(children);
    lemma_sum_of_prefix_bounded(counts, i + 1);
    assert(counts.take(i + 1).take(i) == counts.take(i));
    lemma_sum_of_prefix_bounded(counts.take(i + 1), i);
}

/// Where child `i` of a run starts: after the children before it along the
/// direction of flow, and level with the run across it.
pub open spec fn child_origin(
    children: Seq<Widget>,
    direction: Direction,
    left: int,
    top: int,
    defaults: Defaults,
    i: int,
) -> (int, int) {
    match direction {
        Direction::Across => (left + sum(consumed_widths(children, defaults).take(i)), top),
        Direction::Down => (left, top + sum(consumed_heights(children, defaults).take(i))),
    }
}

/// A run of siblings consumes the sum of its children's sizes along the
/// direction of flow and the largest of them across it. Each child is
/// resolved where its predecessors end, and its widgets follow theirs.
pub proof fn lemma_flow_additivity(
    children: Seq<Widget>,
    direction: Direction,
    left: int,
    top: int,
    defaults: Defaults,
)
    ensures
        flow_extent(children, direction, defaults) == match direction {
            Direction::Across => (
                sum(consumed_widths(children, defaults)),
                highest(consumed_heights(children, defaults)),
            ),
            Direction::Down => (
                highest(consumed_widths(children, defaults)),
                sum(consumed_heights(children, defaults)),
            ),
        },
        forall|i: int|
            0 <= i < children.len() ==> share(
                flow_layout(children, direction, left, top, defaults),
                leaf_counts(children),
                i,
            ) == (#[trigger] children[i]).layout(
                child_origin(children, direction, left, top, defaults, i).0,
                child_origin(children, direction, left, top, defaults, i).1,
                defaults,
            ),
    decreases children,
{
    if children.len() > 0 {
        let first = children.first();
        let rest = children.drop_first();
        let next = advance(direction, (left, top), first.extent(defaults));
        let widths = consumed_widths(children, defaults);
        let heights = consumed_heights(children, defaults);
        let counts = leaf_counts(children);
        let all = flow_layout(children, direction, left, top, defaults);
        lemma_flow_additivity(rest, direction, next.0, next.1, defaults);
        lemma_one_widget_per_leaf(first, left, top, defaults);
        assert(widths.drop_first() == consumed_widths(rest, defaults));
        assert(heights.drop_first() == consumed_heights(rest, defaults));
        assert(counts.drop_first() == leaf_counts(rest));
        assert forall|i: int| 0 <= i < children.len() implies share(all, counts, i) == (
        #[trigger] children[i]).layout(
            child_origin(children, direction, left, top, defaults, i).0,
            child_origin(children, direction, left, top, defaults, i).1,
            defaults,
        ) by {
            lemma_sum_of_longer_prefix(counts, i + 1);
            if i > 0 {
                lemma_sum_of_longer_prefix(counts, i);
                lemma_sum_of_longer_prefix(widths, i);
                lemma_sum_of_longer_prefix(heights, i);
                lemma_shares_in_range(rest, i - 1);
                lemma_flow_one_widget_per_leaf(rest, direction, next.0, next.1, defaults);
                assert(rest[i - 1] == children[i]);
            }
        }
    }
}

/// A row consumes the sum of its children's widths and the largest of their
/// heights. Child `i` is resolved at the row's top, to the right of the row's
/// left edge by the widths of the children before it, under the row's
/// settings where it has them and the ambient defaults where not.
pub proof fn lemma_row_additivity(row: Row, left: int, top: int, defaults: Defaults)
    ensures
        ({
            let node = Widget::Row(row);
            let children = row.widgets@;
            let handed = defaults.below(node);
            let widths = consumed_widths(children, handed);
            let heights = consumed_heights(children, handed);
            &&& node.extent(defaults) == (sum(widths), highest(heights))
            &&& forall|i: int|
                0 <= i < children.len() ==> share(
                    node.layout(left, top, defaults),
                    leaf_counts(children),
                    i,
                ) == (#[trigger] children[i]).layout(left + sum(widths.take(i)), top, handed)
        }),
{
    let node = Widget::Row(row);
    lemma_flow_additivity(row.widgets@, Direction::Across, left, top, defaults.below(node));
}

/// A column consumes the largest of its children's widths and the sum of
/// their heights. Child `i` is resolved at the column's left edge, below the
/// column's top by the heights of the children before it, under the column's
/// settings where it has them and the ambient defaults where not.
pub proof fn lemma_column_additivity(column: Column, left: int, top: int, defaults: Defaults)
    ensures
        ({
            let node = Widget::Column(column);
            let children = column.widgets@;
            let handed = defaults.below(node);
            let widths = consumed_widths(children, handed);
            let heights = consumed_heights(children, handed);
            &&& node.extent(defaults) == (highest(widths), sum(heights))
            &&& forall|i: int|
                0 <= i < children.len() ==> share(
                    node.layout(left, top, defaults),
                    leaf_counts(children),
                    i,
                ) == (#[trigger] children[i]).layout(left, top + sum(heights.take(i)), handed)
        }),
{
    let node = Widget::Column(column);
    lemma_flow_additivity(column.widgets@, Direction::Down, left, top, defaults.below(node));
}

// ---------------------------------------------------------------------------
// Precedence of settings
// ---------------------------------------------------------------------------

/// What a leaf sets for itself always wins: whatever the ambient defaults
/// are and whatever the containers above the leaf set, the widget of a leaf
/// has the width, the height and the color that the leaf names.
pub proof fn lemma_own_setting_wins(node: Widget, left: int, top: int, defaults: Defaults, i: int)
    requires
        0 <= i < node.leaves().len(),
    ensures
        i < node.layout(left, top, defaults).len(),
        node.leaves()[i].width_setting() matches Some(width) ==> node.layout(
            left,
            top,
            defaults,
        )[i].width == width,
        node.leaves()[i].height_setting() matches Some(height) ==> node.layout(
            left,
            top,
            defaults,
        )[i].height == height,
        node.leaves()[i].color_setting() matches Some(color) ==> node.layout(
            left,
            top,
            defaults,
        )[i].color == color,
{
    lemma_document_order(node, left, top, defaults);
}

/// What a container sets for its children wins over what its own ancestors
/// handed down: two sets of ambient defaults that differ only where the
/// container has a setting of its own give the same layout.
pub proof fn lemma_nearest_setting_wins(
    node: Widget,
    left: int,
    top: int,
    defaults: Defaults,
    others: Defaults,
)
    requires
        node.is_container(),
        node.width_setting() is None ==> others.width == defaults.width,
        node.height_setting() is None ==> others.height == defaults.height,
        node.color_setting() is None ==> others.color == defaults.color,
    ensures
        node.extent(defaults) == node.extent(others),
        node.layout(left, top, defaults) == node.layout(left, top, others),
{
    assert(defaults.below(node) == others.below(node));
}

/// In a tree that sets nothing, every widget takes the ambient defaults, and
/// where there is none, a single cell and the palette's default color.
pub proof fn lemma_unset_tree_takes_defaults(node: Widget, left: int, top: int, defaults: Defaults)
    requires
        node.sets_nothing(),
    ensures
        forall|i: int|
            #![trigger node.layout(left, top, defaults)[i]]
            0 <= i < node.layout(left, top, defaults).len() ==> {
                let widget = node.layout(left, top, defaults)[i];
                &&& widget.width == resolved_size(None, defaults.width)
                &&& widget.height == resolved_size(None, defaults.height)
                &&& widget.color == resolved_color(None, defaults.color)
            },
    decreases node,
{
    if node.is_container() {
        assert(defaults.below(node) == defaults);
        lemma_flow_unset_takes_defaults(node.children(), node.direction(), left, top, defaults);
    }
}

/// In a run of siblings that set nothing, every widget takes the ambient
/// defaults or the fallbacks.
pub proof fn lemma_flow_unset_takes_defaults(
    children: Seq<Widget>,
    direction: Direction,
    left: int,
    top: int,
    defaults: Defaults,
)
    requires
        forall|i: int| 0 <= i < children.len() ==> (#[trigger] children[i]).sets_nothing(),
    ensures
        forall|i: int|
            #![trigger flow_layout(children, direction, left, top, defaults)[i]]
            0 <= i < flow_layout(children, direction, left, top, defaults).len() ==> {
                let widget = flow_layout(children, direction, left, top, defaults)[i];
                &&& widget.width == resolved_size(None, defaults.width)
                &&& widget.height == resolved_size(None, defaults.height)
                &&& widget.color == resolved_color(None, defaults.color)
            },
    decreases children,
{
    if children.len() > 0 {
        let first = children.first();
        let rest = children.drop_first();
        let next = advance(direction, (left, top), first.extent(defaults));
        lemma_unset_tree_takes_defaults(first, left, top, defaults);
        assert forall|i: int| 0 <= i < rest.len() implies (#[trigger] rest[i]).sets_nothing() by {
            assert(rest[i] == children[i + 1]);
        }
        lemma_flow_unset_takes_defaults(rest, direction, next.0, next.1, defaults);
        let head = first.layout(left, top, defaults);
        let tail = flow_layout(rest, direction, next.0, next.1, defaults);
        let all = flow_layout(children, direction, left, top, defaults);
        assert(all == head + tail);
        assert forall|i: int| 0 <= i < all.len() implies {
            &&& (#[trigger] all[i]).width == resolved_size(None, defaults.width)
            &&& all[i].height == resolved_size(None, defaults.height)
            &&& all[i].color == resolved_color(None, defaults.color)
        } by {
            if i < head.len() {
                assert(all[i] == head[i]);
            } else {
                assert(all[i] == tail[i - head.len()]);
            }
        }
    }
}

/// With no setting anywhere and no ambient default, every widget is a single
/// cell in the palette's default color.
pub proof fn lemma_fallback(node: Widget, left: int, top: int)
    requires
        node.sets_nothing(),
    ensures
        forall|i: int|
            #![trigger node.layout(left, top, Defaults::none())[i]]
            0 <= i < node.layout(left, top, Defaults::none()).len() ==> {
                let widget = node.layout(left, top, Defaults::none())[i];
                &&& widget.width == 1
                &&& widget.height == 1
                &&& widget.color == Color::Teal
            },
{
    lemma_unset_tree_takes_defaults(node, left, top, Defaults::none());
}

// ---------------------------------------------------------------------------
// Whole dashboards
// ---------------------------------------------------------------------------

/// Resolving is repeatable: whatever two resolutions of the same widgets
/// under the same name return, it is the same value.
pub proof fn lemma_resolution_repeats(
    widgets: Seq<Widget>,
    name: Seq<char>,
    first: Result<Dashboard, LayoutError>,
    second: Result<Dashboard, LayoutError>,
)
    requires
        outcome(first) == resolution(widgets, name),
        outcome(second) == resolution(widgets, name),
    ensures
        outcome(first) == outcome(second),
{
}

/// A container without children resolves to no widget and consumes nothing,
/// so it fits wherever it starts.
pub proof fn lemma_empty_container(node: Widget, left: int, top: int, defaults: Defaults)
    requires
        node.is_container(),
        node.children().len() == 0,
    ensures
        node.layout(left, top, defaults).len() == 0,
        node.extent(defaults) == (0int, 0int),
        left <= u16::MAX && top <= u16::MAX ==> node.fits(left, top, defaults),
{
}

/// The top level of a dashboard behaves as a column that sets nothing.
pub proof fn lemma_top_level_is_a_column(column: Column, left: int, top: int)
    requires
        column.widget_width is None,
        column.widget_height is None,
        column.widget_color is None,
    ensures
        Widget::Column(column).layout(left, top, Defaults::none()) == flow_layout(
            column.widgets@,
            Direction::Down,
            left,
            top,
            Defaults::none(),
        ),
        Widget::Column(column).extent(Defaults::none()) == flow_extent(
            column.widgets@,
            Direction::Down,
            Defaults::none(),
        ),
{
    assert(Defaults::none().below(Widget::Column(column)) == Defaults::none());
}

/// No top-level widgets resolve to a dashboard without widgets, which covers
/// no column and no row.
pub proof fn lemma_empty_dashboard(name: Seq<char>)
    ensures
        resolution(Seq::empty(), name) matches Ok(dashboard) && {
            &&& dashboard.name == name
            &&& dashboard.widgets.len() == 0
            &&& dashboard.spans_columns(0)
            &&& dashboard.spans_rows(0)
        },
{
}

} // verus!
