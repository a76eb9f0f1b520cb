//! Mathematical model of the scene builder.
//!
//! A [`ToolView`] is the abstract state of a [`crate::tool::PSTool`]: the
//! explicit bounds (when set), the border and scale settings, the ordered
//! event log, the string table, the text cursor, and the accumulated notes.
//! Each public builder operation has a specification function here saying
//! exactly how it transforms this state; the executable methods promise to
//! match them.

use crate::bbox::{bb_add, bb_new, BBoxV};
use crate::event::{ev_wf, EventView};
use crate::fixed::{in_range, scaled, tdiv, MAX_CURSOR, MAX_IN, MAX_SCALE, MAX_SPACE, MAX_STORE};
use vstd::math::{max, min};
use vstd::prelude::*;

verus! {

/// The abstract state of a scene builder.
pub ghost struct ToolView {
    /// Explicit bounds; `ebox.valid` means inference is bypassed.
    pub ebox: BBoxV,
    /// Padding added to an inferred bounding box only, in thousandths.
    pub border: int,
    /// Scale factor in thousandths, applied to coordinates at insertion.
    pub scale: int,
    /// The ordered event log; insertion order is the z-order.
    pub events: Seq<EventView>,
    /// The append-only string table the events reference.
    pub table: Seq<Seq<char>>,
    /// Text cursor position, in thousandths (not scaled).
    pub text_x: int,
    pub text_y: int,
    /// Vertical distance between text lines, in thousandths.
    pub line_space: int,
    /// Annotations emitted before any event-derived output.
    pub notes: Seq<Seq<char>>,
}

/// Well-formedness of the builder state: every event is well formed against
/// the table, and every setting stays within its machine range.
pub open spec fn tool_wf(v: ToolView) -> bool {
    &&& forall|i: int| 0 <= i < v.events.len() ==> ev_wf(#[trigger] v.events[i], v.table.len() as int)
    &&& -MAX_SCALE <= v.scale <= MAX_SCALE
    &&& in_range(v.border)
    &&& in_range(v.ebox.llx) && in_range(v.ebox.lly) && in_range(v.ebox.urx) && in_range(
        v.ebox.ury,
    )
    &&& -MAX_CURSOR <= v.text_x <= MAX_CURSOR
    &&& -MAX_CURSOR <= v.text_y <= MAX_CURSOR
    &&& -MAX_SPACE <= v.line_space <= MAX_SPACE
}

/// The state of a freshly created builder: empty log and table, scale one,
/// no border, no explicit bounds, cursor at the origin, line spacing of
/// twelve points.
pub open spec fn tool_init() -> ToolView {
    ToolView {
        ebox: bb_new(),
        border: 0,
        scale: 1000,
        events: Seq::empty(),
        table: Seq::empty(),
        text_x: 0,
        text_y: 0,
        line_space: 12000,
        notes: Seq::empty(),
    }
}

/// Appends a box event with the corners scaled by the current factor.
pub open spec fn spec_add_box(v: ToolView, llx: int, lly: int, urx: int, ury: int) -> ToolView {
    ToolView {
        events: v.events.push(
            EventView::Rect {
                llx: scaled(llx, v.scale),
                lly: scaled(lly, v.scale),
                urx: scaled(urx, v.scale),
                ury: scaled(ury, v.scale),
            },
        ),
        ..v
    }
}

/// Appends a line event with the endpoints scaled by the current factor.
pub open spec fn spec_add_line(v: ToolView, llx: int, lly: int, urx: int, ury: int) -> ToolView {
    ToolView {
        events: v.events.push(
            EventView::Line {
                llx: scaled(llx, v.scale),
                lly: scaled(lly, v.scale),
                urx: scaled(urx, v.scale),
                ury: scaled(ury, v.scale),
            },
        ),
        ..v
    }
}

/// Appends a circle event with center and radius scaled by the current
/// factor.
pub open spec fn spec_add_circle(v: ToolView, x: int, y: int, radius: int) -> ToolView {
    ToolView {
        events: v.events.push(
            EventView::Circle {
                cx: scaled(x, v.scale),
                cy: scaled(y, v.scale),
                radius: scaled(radius, v.scale),
            },
        ),
        ..v
    }
}

/// Appends a curve event with all three control points scaled.
pub open spec fn spec_add_curve(
    v: ToolView,
    x1: int,
    y1: int,
    x2: int,
    y2: int,
    x3: int,
    y3: int,
) -> ToolView {
    ToolView {
        events: v.events.push(
            EventView::Curve {
                x1: scaled(x1, v.scale),
                y1: scaled(y1, v.scale),
                x2: scaled(x2, v.scale),
                y2: scaled(y2, v.scale),
                x3: scaled(x3, v.scale),
                y3: scaled(y3, v.scale),
            },
        ),
        ..v
    }
}

/// Appends a raw-markup event; the text goes into the string table.
pub open spec fn spec_add_postscript(v: ToolView, t: Seq<char>) -> ToolView {
    ToolView {
        events: v.events.push(EventView::RawMarkup { sref: v.table.len() as int }),
        table: v.table.push(t),
        ..v
    }
}

/// Appends a text event at a scaled position with no rotation.
pub open spec fn spec_add_text(v: ToolView, x: int, y: int, t: Seq<char>) -> ToolView {
    ToolView {
        events: v.events.push(
            EventView::Text {
                sref: v.table.len() as int,
                x: scaled(x, v.scale),
                y: scaled(y, v.scale),
                angle: 0,
            },
        ),
        table: v.table.push(t),
        ..v
    }
}

/// Appends a text event at a scaled position with the given rotation angle
/// (which is not scaled).
pub open spec fn spec_add_text_rotated(
    v: ToolView,
    x: int,
    y: int,
    angle: int,
    t: Seq<char>,
) -> ToolView {
    ToolView {
        events: v.events.push(
            EventView::Text {
                sref: v.table.len() as int,
                x: scaled(x, v.scale),
                y: scaled(y, v.scale),
                angle: angle,
            },
        ),
        table: v.table.push(t),
        ..v
    }
}

/// Moves the text cursor (not scaled).
pub open spec fn spec_set_text_ln(v: ToolView, x: int, y: int) -> ToolView {
    ToolView { text_x: x, text_y: y, ..v }
}

/// Appends a text event at the cursor, then moves the cursor down one line
/// spacing.
pub open spec fn spec_add_text_ln(v: ToolView, t: Seq<char>) -> ToolView {
    let v1 = spec_add_text(v, v.text_x, v.text_y, t);
    ToolView { text_y: v.text_y - v.line_space, ..v1 }
}

/// Appends an in-stream comment event; the text goes into the string table.
pub open spec fn spec_add_comment(v: ToolView, t: Seq<char>) -> ToolView {
    ToolView {
        events: v.events.push(EventView::Comment { sref: v.table.len() as int }),
        table: v.table.push(t),
        ..v
    }
}

/// Stores a note, emitted before any event-derived output.
pub open spec fn spec_add_note(v: ToolView, t: Seq<char>) -> ToolView {
    ToolView { notes: v.notes.push(t), ..v }
}

/// Appends a color state event (components stored unscaled).
pub open spec fn spec_set_color(v: ToolView, r: int, g: int, b: int, a: int) -> ToolView {
    ToolView { events: v.events.push(EventView::SetColor { r, g, b, a }), ..v }
}

/// Appends a fill state event.
pub open spec fn spec_set_fill(v: ToolView, enabled: bool) -> ToolView {
    ToolView { events: v.events.push(EventView::SetFill { enabled }), ..v }
}

/// Sets the border padding (applied to inferred bounds only).
pub open spec fn spec_set_border(v: ToolView, border: int) -> ToolView {
    ToolView { border, ..v }
}

/// Sets explicit bounds, bypassing inference entirely.
pub open spec fn spec_set_bounds(v: ToolView, llx: int, lly: int, urx: int, ury: int) -> ToolView {
    ToolView { ebox: BBoxV { valid: true, llx, lly, urx, ury }, ..v }
}

/// Sets the scale factor for subsequently appended coordinates.
pub open spec fn spec_set_scale(v: ToolView, scale: int) -> ToolView {
    ToolView { scale, ..v }
}

/// Appends a font state event (name into the table, size unscaled) and
/// resets the line spacing to eleven tenths of the font size.
pub open spec fn spec_set_font(v: ToolView, scale: int, font: Seq<char>) -> ToolView {
    ToolView {
        events: v.events.push(EventView::SetFont { scale, sref: v.table.len() as int }),
        table: v.table.push(font),
        line_space: tdiv(scale * 1100, 1000),
        ..v
    }
}

/// The corner points a drawing event contributes to bounding-box inference:
/// boxes and lines contribute both corners; a circle contributes its center
/// and the pair of its radius and zero, exactly as the event is stored;
/// curves, text, raw markup and state events contribute nothing.
pub open spec fn scan_step(b: BBoxV, e: EventView) -> BBoxV {
    match e {
        EventView::Rect { llx, lly, urx, ury } => bb_add(bb_add(b, llx, lly), urx, ury),
        EventView::Line { llx, lly, urx, ury } => bb_add(bb_add(b, llx, lly), urx, ury),
        EventView::Circle { cx, cy, radius } => bb_add(bb_add(b, cx, cy), radius, 0),
        _ => b,
    }
}

/// The box accumulated by scanning the whole event log.
pub open spec fn scan_events(evs: Seq<EventView>) -> BBoxV
    decreases evs.len(),
{
    if evs.len() == 0 {
        bb_new()
    } else {
        scan_step(scan_events(evs.drop_last()), evs.last())
    }
}

/// The bounding box reported for a builder state: the explicit bounds
/// verbatim when set; otherwise the scanned box (or the all-zero box when no
/// drawing event exists) expanded by the border on all four sides.
pub open spec fn spec_bbox(v: ToolView) -> (int, int, int, int) {
    if v.ebox.valid {
        (v.ebox.llx, v.ebox.lly, v.ebox.urx, v.ebox.ury)
    } else {
        let s = scan_events(v.events);
        if s.valid {
            (s.llx - v.border, s.lly - v.border, s.urx + v.border, s.ury + v.border)
        } else {
            (-v.border, -v.border, v.border, v.border)
        }
    }
}

/// Whether an event takes part in bounding-box inference.
pub open spec fn is_drawing(e: EventView) -> bool {
    e is Rect || e is Line || e is Circle
}

/// The corners of the scanned box stay within the storable range of the
/// scanned events' coordinates.
pub proof fn lemma_scan_bounds(evs: Seq<EventView>, table_len: int)
    requires
        forall|i: int| 0 <= i < evs.len() ==> ev_wf(#[trigger] evs[i], table_len),
    ensures
        ({
            let s = scan_events(evs);
            -MAX_STORE <= s.llx <= MAX_STORE && -MAX_STORE <= s.lly <= MAX_STORE && -MAX_STORE
                <= s.urx <= MAX_STORE && -MAX_STORE <= s.ury <= MAX_STORE
        }),
    decreases evs.len(),
{
    if evs.len() > 0 {
        lemma_scan_bounds(evs.drop_last(), table_len);
        assert(ev_wf(evs.last(), table_len));
    }
}

/// Law: the scale factor is not retroactive.  Changing the scale leaves the
/// recorded events unchanged, and a box appended afterwards is stored with
/// its corners scaled by the new factor, on top of the unchanged log.
pub proof fn lemma_scale_not_retroactive(
    v: ToolView,
    s: int,
    llx: int,
    lly: int,
    urx: int,
    ury: int,
)
    ensures
        spec_set_scale(v, s).events == v.events,
        spec_add_box(spec_set_scale(v, s), llx, lly, urx, ury).events == v.events.push(
            EventView::Rect {
                llx: scaled(llx, s),
                lly: scaled(lly, s),
                urx: scaled(urx, s),
                ury: scaled(ury, s),
            },
        ),
{
}

/// Law: bounding-box inference ignores curve, text, raw-markup and state
/// events.  A log with no box, line or circle event scans to the empty box.
pub proof fn lemma_scan_ignores_nondrawing(evs: Seq<EventView>)
    requires
        forall|i: int| 0 <= i < evs.len() ==> !is_drawing(#[trigger] evs[i]),
    ensures
        scan_events(evs) == bb_new(),
    decreases evs.len(),
{
    if evs.len() > 0 {
        lemma_scan_ignores_nondrawing(evs.drop_last());
        assert(!is_drawing(evs.last()));
    }
}

/// Law: with no explicit bounds and no drawing event, the reported bounding
/// box is the all-zero rectangle expanded by the border, regardless of any
/// text positions.
pub proof fn lemma_bbox_of_nondrawing(v: ToolView)
    requires
        !v.ebox.valid,
        forall|i: int| 0 <= i < v.events.len() ==> !is_drawing(#[trigger] v.events[i]),
    ensures
        spec_bbox(v) == (-v.border, -v.border, v.border, v.border),
{
    lemma_scan_ignores_nondrawing(v.events);
}

/// Prefixes chain: a prefix of a prefix is a prefix.
pub proof fn lemma_prefix_trans(a: Seq<EventView>, b: Seq<EventView>, c: Seq<EventView>)
    requires
        a.is_prefix_of(b),
        b.is_prefix_of(c),
    ensures
        a.is_prefix_of(c),
{
    assert forall|i: int| 0 <= i < a.len() implies a[i] == c[i] by {
        assert(a[i] == b[i]);
    }
    assert(a =~= c.subrange(0, a.len() as int));
}

/// Appending an event keeps every prefix of the log a prefix.
pub proof fn lemma_prefix_push(a: Seq<EventView>, b: Seq<EventView>, e: EventView)
    requires
        a.is_prefix_of(b),
    ensures
        a.is_prefix_of(b.push(e)),
{
    assert(a =~= b.push(e).subrange(0, a.len() as int));
}

/// Law: the event log is append-only.  The chart helper only appends line
/// events: the log it starts from stays a prefix of the log it leaves.
pub proof fn lemma_chart_lines_prefix(
    v: ToolView,
    data: Seq<int>,
    cmin: int,
    cmax: int,
    llx: int,
    lly: int,
    urx: int,
    ury: int,
    i: int,
)
    ensures
        v.events.is_prefix_of(
            spec_chart_lines(v, data, cmin, cmax, llx, lly, urx, ury, i).events,
        ),
    decreases data.len() - i,
{
    if i < 1 || i >= data.len() {
        assert(v.events =~= v.events.subrange(0, v.events.len() as int));
    } else {
        let n = data.len() as int;
        let range = cmax - cmin;
        let v1 = spec_add_line(
            v,
            chart_x(llx, urx, i - 1, n),
            chart_y(lly, ury, data[i - 1], cmin, range),
            chart_x(llx, urx, i, n),
            chart_y(lly, ury, data[i], cmin, range),
        );
        lemma_chart_lines_prefix(v1, data, cmin, cmax, llx, lly, urx, ury, i + 1);
        assert(v.events =~= v.events.subrange(0, v.events.len() as int));
        lemma_prefix_push(v.events, v.events, v1.events.last());
        assert(v.events.is_prefix_of(v1.events));
        lemma_prefix_trans(
            v.events,
            v1.events,
            spec_chart_lines(v1, data, cmin, cmax, llx, lly, urx, ury, i + 1).events,
        );
    }
}

/// The chart polyline starting at sample `i >= 1` appends one line event per
/// remaining sample.
pub proof fn lemma_chart_lines_count(
    v: ToolView,
    data: Seq<int>,
    cmin: int,
    cmax: int,
    llx: int,
    lly: int,
    urx: int,
    ury: int,
    i: int,
)
    requires
        1 <= i,
    ensures
        spec_chart_lines(v, data, cmin, cmax, llx, lly, urx, ury, i).events.len()
            == v.events.len() + (if i <= data.len() {
            data.len() - i
        } else {
            0
        }),
    decreases data.len() - i,
{
    if 1 <= i && i < data.len() {
        let n = data.len() as int;
        let range = cmax - cmin;
        let v1 = spec_add_line(
            v,
            chart_x(llx, urx, i - 1, n),
            chart_y(lly, ury, data[i - 1], cmin, range),
            chart_x(llx, urx, i, n),
            chart_y(lly, ury, data[i], cmin, range),
        );
        lemma_chart_lines_count(v1, data, cmin, cmax, llx, lly, urx, ury, i + 1);
    }
}

/// Law: on non-degenerate input the chart appends exactly one box event and
/// one line event per pair of consecutive samples — `data.len()` events in
/// all; on degenerate input (no samples, or a rectangle of zero width or
/// height) it appends nothing.
pub proof fn lemma_chart_event_count(
    v: ToolView,
    data: Seq<int>,
    mn: int,
    mx: int,
    llx: int,
    lly: int,
    urx: int,
    ury: int,
)
    ensures
        spec_chart(v, data, mn, mx, llx, lly, urx, ury).events.len() == v.events.len() + (if data.len() == 0 || llx == urx || lly == ury {
            0
        } else {
            data.len() as int
        }),
{
    if !(data.len() == 0 || llx == urx || lly == ury) {
        let cmin = if mn != mx {
            mn
        } else {
            seq_min(data)
        };
        let cmax = if mn != mx {
            mx
        } else {
            seq_max(data)
        };
        let v1 = spec_add_box(v, llx, lly, urx, ury);
        lemma_chart_lines_count(v1, data, cmin, cmax, llx, lly, urx, ury, 1);
    }
}

/// The smallest value in a nonempty sequence, scanning front to back.
pub open spec fn seq_min(s: Seq<int>) -> int
    recommends
        s.len() > 0,
    decreases s.len(),
{
    if s.len() <= 1 {
        s[0]
    } else {
        min(seq_min(s.drop_last()), s.last())
    }
}

/// The largest value in a nonempty sequence, scanning front to back.
pub open spec fn seq_max(s: Seq<int>) -> int
    recommends
        s.len() > 0,
    decreases s.len(),
{
    if s.len() <= 1 {
        s[0]
    } else {
        max(seq_max(s.drop_last()), s.last())
    }
}

/// The horizontal position of chart sample `i` of `n`: the left edge plus
/// `i / n` of the width, truncated.
pub open spec fn chart_x(llx: int, urx: int, i: int, n: int) -> int {
    llx + tdiv((urx - llx) * i, n)
}

/// The vertical position of a chart sample: the bottom edge plus the
/// sample's fraction of the data range, then clamped to the top and bottom
/// edges in that order.  A zero range places the sample on the bottom edge.
pub open spec fn chart_y(lly: int, ury: int, v: int, cmin: int, range: int) -> int {
    let dy = ury - lly;
    let y0 = if range == 0 {
        lly
    } else {
        lly + tdiv(dy * (v - cmin), range)
    };
    let y1 = if y0 > lly + dy {
        lly + dy
    } else {
        y0
    };
    if y1 < lly {
        lly
    } else {
        y1
    }
}

/// The chart's polyline: one line event between each pair of consecutive
/// sample positions, appended in sample order starting at sample `i`.
pub open spec fn spec_chart_lines(
    v: ToolView,
    data: Seq<int>,
    cmin: int,
    cmax: int,
    llx: int,
    lly: int,
    urx: int,
    ury: int,
    i: int,
) -> ToolView
    decreases data.len() - i,
{
    if i < 1 || i >= data.len() {
        v
    } else {
        let n = data.len() as int;
        let range = cmax - cmin;
        let v1 = spec_add_line(
            v,
            chart_x(llx, urx, i - 1, n),
            chart_y(lly, ury, data[i - 1], cmin, range),
            chart_x(llx, urx, i, n),
            chart_y(lly, ury, data[i], cmin, range),
        );
        spec_chart_lines(v1, data, cmin, cmax, llx, lly, urx, ury, i + 1)
    }
}

/// The chart helper: degenerate input (no samples, or a rectangle with zero
/// width or height) appends nothing; otherwise a box event for the rectangle
/// is appended first, followed by the polyline.  When the supplied bounds
/// are equal the range is taken from the data itself.
pub open spec fn spec_chart(
    v: ToolView,
    data: Seq<int>,
    mn: int,
    mx: int,
    llx: int,
    lly: int,
    urx: int,
    ury: int,
) -> ToolView {
    if data.len() == 0 || llx == urx || lly == ury {
        v
    } else {
        let cmin = if mn != mx {
            mn
        } else {
            seq_min(data)
        };
        let cmax = if mn != mx {
            mx
        } else {
            seq_max(data)
        };
        let v1 = spec_add_box(v, llx, lly, urx, ury);
        spec_chart_lines(v1, data, cmin, cmax, llx, lly, urx, ury, 1)
    }
}

} // verus!
