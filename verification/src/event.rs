//! The drawing events recorded in the log.
//!
//! Every event is a fixed-size record of a closed sum type.  Variants with a
//! text payload do not carry the string itself: they carry an index into the
//! owning log's append-only string table, so the records stay fixed-size and
//! copyable.

use crate::fixed::{Fixed, MAX_IN, MAX_STORE};
use vstd::prelude::*;

verus! {

/// One immutable recorded drawing or state-change instruction.
///
/// Coordinates of drawing events are stored already scaled by the scale
/// factor that was current when the event was appended.  `sref` fields index
/// the owning log's string table.
#[derive(Clone, Copy, Debug, PartialEq, Eq, Structural)]
pub enum DrawEvent {
    /// An axis-aligned box between two corners.
    Rect { llx: Fixed, lly: Fixed, urx: Fixed, ury: Fixed },
    /// A line between two points.
    Line { llx: Fixed, lly: Fixed, urx: Fixed, ury: Fixed },
    /// A circle around a center.
    Circle { cx: Fixed, cy: Fixed, radius: Fixed },
    /// A cubic Bezier curve through three control points.
    Curve { x1: Fixed, y1: Fixed, x2: Fixed, y2: Fixed, x3: Fixed, y3: Fixed },
    /// Text shown at a position, rotated when the angle is not zero.
    Text { sref: usize, x: Fixed, y: Fixed, angle: Fixed },
    /// Raw page-description markup emitted verbatim at its position.
    RawMarkup { sref: usize },
    /// An in-stream annotation with no visual effect.
    Comment { sref: usize },
    /// Sets the drawing color; the alpha channel is recorded but has no
    /// effect on the textual output.
    SetColor { r: Fixed, g: Fixed, b: Fixed, a: Fixed },
    /// Sets whether boxes and circles are filled or outlined.
    SetFill { enabled: bool },
    /// Selects a font by name (a table index) and size.
    SetFont { scale: Fixed, sref: usize },
}

/// Mathematical model of one event: the same variants over plain integers.
pub ghost enum EventView {
    Rect { llx: int, lly: int, urx: int, ury: int },
    Line { llx: int, lly: int, urx: int, ury: int },
    Circle { cx: int, cy: int, radius: int },
    Curve { x1: int, y1: int, x2: int, y2: int, x3: int, y3: int },
    Text { sref: int, x: int, y: int, angle: int },
    RawMarkup { sref: int },
    Comment { sref: int },
    SetColor { r: int, g: int, b: int, a: int },
    SetFill { enabled: bool },
    SetFont { scale: int, sref: int },
}

impl View for DrawEvent {
    type V = EventView;

    open spec fn view(&self) -> EventView {
        match *self {
            DrawEvent::Rect { llx, lly, urx, ury } => EventView::Rect {
                llx: llx@,
                lly: lly@,
                urx: urx@,
                ury: ury@,
            },
            DrawEvent::Line { llx, lly, urx, ury } => EventView::Line {
                llx: llx@,
                lly: lly@,
                urx: urx@,
                ury: ury@,
            },
            DrawEvent::Circle { cx, cy, radius } => EventView::Circle {
                cx: cx@,
                cy: cy@,
                radius: radius@,
            },
            DrawEvent::Curve { x1, y1, x2, y2, x3, y3 } => EventView::Curve {
                x1: x1@,
                y1: y1@,
                x2: x2@,
                y2: y2@,
                x3: x3@,
                y3: y3@,
            },
            DrawEvent::Text { sref, x, y, angle } => EventView::Text {
                sref: sref as int,
                x: x@,
                y: y@,
                angle: angle@,
            },
            DrawEvent::RawMarkup { sref } => EventView::RawMarkup { sref: sref as int },
            DrawEvent::Comment { sref } => EventView::Comment { sref: sref as int },
            DrawEvent::SetColor { r, g, b, a } => EventView::SetColor {
                r: r@,
                g: g@,
                b: b@,
                a: a@,
            },
            DrawEvent::SetFill { enabled } => EventView::SetFill { enabled },
            DrawEvent::SetFont { scale, sref } => EventView::SetFont {
                scale: scale@,
                sref: sref as int,
            },
        }
    }
}

/// Well-formedness of one recorded event: scaled coordinates stay within
/// the storable range, raw state values within the input range, and every
/// string reference points into the table.
pub open spec fn ev_wf(e: EventView, table_len: int) -> bool {
    match e {
        EventView::Rect { llx, lly, urx, ury } => {
            &&& -MAX_STORE <= llx <= MAX_STORE
            &&& -MAX_STORE <= lly <= MAX_STORE
            &&& -MAX_STORE <= urx <= MAX_STORE
            &&& -MAX_STORE <= ury <= MAX_STORE
        },
        EventView::Line { llx, lly, urx, ury } => {
            &&& -MAX_STORE <= llx <= MAX_STORE
            &&& -MAX_STORE <= lly <= MAX_STORE
            &&& -MAX_STORE <= urx <= MAX_STORE
            &&& -MAX_STORE <= ury <= MAX_STORE
        },
        EventView::Circle { cx, cy, radius } => {
            &&& -MAX_STORE <= cx <= MAX_STORE
            &&& -MAX_STORE <= cy <= MAX_STORE
            &&& -MAX_STORE <= radius <= MAX_STORE
        },
        EventView::Curve { x1, y1, x2, y2, x3, y3 } => {
            &&& -MAX_STORE <= x1 <= MAX_STORE
            &&& -MAX_STORE <= y1 <= MAX_STORE
            &&& -MAX_STORE <= x2 <= MAX_STORE
            &&& -MAX_STORE <= y2 <= MAX_STORE
            &&& -MAX_STORE <= x3 <= MAX_STORE
            &&& -MAX_STORE <= y3 <= MAX_STORE
        },
        EventView::Text { sref, x, y, angle } => {
            &&& 0 <= sref < table_len
            &&& -MAX_STORE <= x <= MAX_STORE
            &&& -MAX_STORE <= y <= MAX_STORE
            &&& -MAX_IN <= angle <= MAX_IN
        },
        EventView::RawMarkup { sref } => 0 <= sref < table_len,
        EventView::Comment { sref } => 0 <= sref < table_len,
        EventView::SetColor { r, g, b, a } => {
            &&& -MAX_IN <= r <= MAX_IN
            &&& -MAX_IN <= g <= MAX_IN
            &&& -MAX_IN <= b <= MAX_IN
            &&& -MAX_IN <= a <= MAX_IN
        },
        EventView::SetFill { enabled: _ } => true,
        EventView::SetFont { scale, sref } => {
            &&& 0 <= sref < table_len
            &&& -MAX_IN <= scale <= MAX_IN
        },
    }
}

} // verus!
