//! The scene builder: the public mutating API over the event log.
//!
//! A [`PSTool`] owns an append-only event log and its string table, plus the
//! builder-local state: the scale factor applied to coordinates at insertion
//! time, the border padding for inferred bounds, optional explicit bounds,
//! the text cursor, and free-standing notes.  Corrections are made by
//! appending new state events, never by mutating recorded ones.  Every
//! method's effect on the abstract state is pinned down by the matching
//! specification function in [`crate::model`].

use crate::bbox::{bb_add, BBox, BBoxV};
use crate::event::{ev_wf, DrawEvent, EventView};
use crate::fixed::{
    div_trunc, in_range, lemma_scaled_in_store, lemma_tdiv_abs, lemma_tdiv_scaled_bounds, scaled,
    Fixed, MAX_IN, MAX_SCALE, MAX_STORE, UNIT,
};
use crate::model::{
    chart_x, chart_y, lemma_prefix_push, scan_events, scan_step, seq_max, seq_min, spec_add_box,
    spec_add_circle,
    spec_add_comment, spec_add_curve, spec_add_line, spec_add_note, spec_add_postscript,
    spec_add_text, spec_add_text_ln, spec_add_text_rotated, spec_bbox, spec_chart,
    spec_chart_lines, spec_set_bounds, spec_set_border, spec_set_color, spec_set_fill,
    spec_set_font, spec_set_scale, spec_set_text_ln, tool_init, tool_wf, ToolView,
};
use crate::parse::{
    kw_start, lemma_line_end_at, nums_chain_exec, number_exec, process_line, rest_exec,
    spec_parse, spec_parse_from, trim_exec, uint_nonzero_exec,
};
use crate::render::{
    event_string, events_text, fill_after, header_text, lemma_notes_text_snoc, notes_text,
    push_fixed, spec_render,
};
use vstd::prelude::*;
use vstd::string::StringExecFns;

verus! {

/// All four corners within the storable coordinate range.
pub open spec fn bb_store_range(b: BBoxV) -> bool {
    &&& -MAX_STORE <= b.llx <= MAX_STORE
    &&& -MAX_STORE <= b.lly <= MAX_STORE
    &&& -MAX_STORE <= b.urx <= MAX_STORE
    &&& -MAX_STORE <= b.ury <= MAX_STORE
}

/// Widens a running scan box by one point given in thousandths; the point
/// may carry any storable (already scaled) coordinates.
fn scan_addpoint(b: &mut BBox, px: i64, py: i64)
    requires
        bb_store_range(old(b)@),
        -MAX_STORE <= px <= MAX_STORE,
        -MAX_STORE <= py <= MAX_STORE,
    ensures
        final(b)@ == bb_add(old(b)@, px as int, py as int),
        bb_store_range(final(b)@),
{
    if !b.valid {
        b.llx = Fixed::from_milli(px);
        b.lly = Fixed::from_milli(py);
        b.urx = Fixed::from_milli(px);
        b.ury = Fixed::from_milli(py);
        b.valid = true;
    } else {
        if px < b.llx.m {
            b.llx = Fixed::from_milli(px);
        }
        if py < b.lly.m {
            b.lly = Fixed::from_milli(py);
        }
        if px > b.urx.m {
            b.urx = Fixed::from_milli(px);
        }
        if py > b.ury.m {
            b.ury = Fixed::from_milli(py);
        }
    }
}

/// The horizontal position of chart sample `i` of `n`, in thousandths.
fn chart_x_exec(llx: i64, urx: i64, i: i64, n: i64) -> (r: i64)
    requires
        in_range(llx as int),
        in_range(urx as int),
        0 <= i <= n,
        1 <= n <= 1_000_000,
    ensures
        r == chart_x(llx as int, urx as int, i as int, n as int),
        in_range(r as int),
{
    let dx = urx - llx;
    proof {
        assert(-2_000_000_000_000_000 <= dx * i <= 2_000_000_000_000_000) by (nonlinear_arith)
            requires
                -2_000_000_000 <= dx <= 2_000_000_000,
                0 <= i <= 1_000_000,
        ;
        lemma_tdiv_scaled_bounds(dx as int, i as int, n as int);
    }
    llx + div_trunc(dx * i, n)
}

/// The vertical position of a chart sample, clamped into the rectangle's
/// vertical extent, in thousandths.
fn chart_y_exec(lly: i64, ury: i64, v: i64, cmin: i64, range: i64) -> (r: i64)
    requires
        in_range(lly as int),
        in_range(ury as int),
        in_range(v as int),
        in_range(cmin as int),
        -2_000_000_000 <= range <= 2_000_000_000,
    ensures
        r == chart_y(lly as int, ury as int, v as int, cmin as int, range as int),
        in_range(r as int),
{
    let dy = ury - lly;
    let y0: i64 = if range == 0 {
        lly
    } else {
        proof {
            assert(-4_000_000_000_000_000_000 <= dy * (v - cmin) <= 4_000_000_000_000_000_000)
                by (nonlinear_arith)
                requires
                    -2_000_000_000 <= dy <= 2_000_000_000,
                    -2_000_000_000 <= v - cmin <= 2_000_000_000,
            ;
            lemma_tdiv_abs(dy as int * (v - cmin) as int, range as int);
        }
        lly + div_trunc(dy * (v - cmin), range)
    };
    let y1: i64 = if y0 > lly + dy {
        lly + dy
    } else {
        y0
    };
    if y1 < lly {
        lly
    } else {
        y1
    }
}

/// Records a series of drawing events — boxes, lines, circles, curves,
/// text, raw markup, and color/fill/font changes.  The bounding box of the
/// events is computed (or taken from explicit bounds) when output is
/// generated, and the events are serialized in insertion order as textual
/// page-description instructions.
///
/// A scale factor can be set; it is applied to coordinates at the moment an
/// event is appended, never retroactively.
pub struct PSTool {
    bbox: BBox,
    border: Fixed,
    scale: Fixed,
    events: Vec<DrawEvent>,
    te: Vec<String>,
    text_x: Fixed,
    text_y: Fixed,
    text_line_space: Fixed,
    notes: Vec<String>,
}

impl View for PSTool {
    type V = ToolView;

    closed spec fn view(&self) -> ToolView {
        ToolView {
            ebox: self.bbox@,
            border: self.border@,
            scale: self.scale@,
            events: self.events@.map_values(|e: DrawEvent| e@),
            table: self.te.deep_view(),
            text_x: self.text_x@,
            text_y: self.text_y@,
            line_space: self.text_line_space@,
            notes: self.notes.deep_view(),
        }
    }
}

impl PSTool {
    /// Well-formedness: the abstract state of the builder is well formed.
    pub open spec fn wf(&self) -> bool {
        tool_wf(self@)
    }

    /// Creates a new builder: empty log and table, scale one, no border, no
    /// explicit bounds, the text cursor at the origin, and a line spacing of
    /// twelve points.
    pub fn new() -> (r: PSTool)
        ensures
            r@ == tool_init(),
            r.wf(),
    {
        let r = PSTool {
            bbox: BBox::new(),
            border: Fixed::zero(),
            scale: Fixed::from_milli(1000),
            events: Vec::new(),
            te: Vec::new(),
            text_x: Fixed::zero(),
            text_y: Fixed::zero(),
            text_line_space: Fixed::from_milli(12000),
            notes: Vec::new(),
        };
        proof {
            assert(r@.events =~= tool_init().events);
            assert(r@.table =~= tool_init().table);
            assert(r@.notes =~= tool_init().notes);
        }
        r
    }

    /// Scales one coordinate by the current factor.
    fn scale_coord(&self, x: Fixed) -> (r: Fixed)
        requires
            self.wf(),
            in_range(x@),
        ensures
            r@ == scaled(x@, self@.scale),
            -MAX_STORE <= r@ <= MAX_STORE,
    {
        proof {
            lemma_scaled_in_store(x@, self@.scale);
            assert(-1_000_000_000_000_000 <= x@ * self@.scale <= 1_000_000_000_000_000)
                by (nonlinear_arith)
                requires
                    -MAX_IN <= x@ <= MAX_IN,
                    -MAX_SCALE <= self@.scale <= MAX_SCALE,
            ;
        }
        Fixed::from_milli(div_trunc(x.m * self.scale.m, UNIT))
    }

    /// After pushing one event, the abstract log is the old log with the
    /// event's view appended, and everything else is unchanged.
    proof fn lemma_push_event(self, old_self: PSTool, e: DrawEvent)
        requires
            self.events@ == old_self.events@.push(e),
            self.te == old_self.te,
            self.bbox == old_self.bbox,
            self.border == old_self.border,
            self.scale == old_self.scale,
            self.text_x == old_self.text_x,
            self.text_y == old_self.text_y,
            self.text_line_space == old_self.text_line_space,
            self.notes == old_self.notes,
        ensures
            self@ == (ToolView { events: old_self@.events.push(e@), ..old_self@ }),
    {
        assert(self@.events =~= old_self@.events.push(e@));
    }

    /// Appends an axis-aligned box between the two corners, scaled by the
    /// current factor.  The box will use the fill mode and color current at
    /// its position in the stream.
    pub fn add_box(&mut self, llx: Fixed, lly: Fixed, urx: Fixed, ury: Fixed)
        requires
            old(self).wf(),
            in_range(llx@),
            in_range(lly@),
            in_range(urx@),
            in_range(ury@),
        ensures
            final(self).wf(),
            final(self)@ == spec_add_box(old(self)@, llx@, lly@, urx@, ury@),
    {
        let e = DrawEvent::Rect {
            llx: self.scale_coord(llx),
            lly: self.scale_coord(lly),
            urx: self.scale_coord(urx),
            ury: self.scale_coord(ury),
        };
        let ghost pre = *self;
        self.events.push(e);
        proof {
            self.lemma_push_event(pre, e);
            assert(ev_wf(e@, self@.table.len() as int));
        }
    }

    /// Appends a line between the two points, scaled by the current factor.
    /// Lines are always outlined in the generated output.
    pub fn add_line(&mut self, llx: Fixed, lly: Fixed, urx: Fixed, ury: Fixed)
        requires
            old(self).wf(),
            in_range(llx@),
            in_range(lly@),
            in_range(urx@),
            in_range(ury@),
        ensures
            final(self).wf(),
            final(self)@ == spec_add_line(old(self)@, llx@, lly@, urx@, ury@),
    {
        let e = DrawEvent::Line {
            llx: self.scale_coord(llx),
            lly: self.scale_coord(lly),
            urx: self.scale_coord(urx),
            ury: self.scale_coord(ury),
        };
        let ghost pre = *self;
        self.events.push(e);
        proof {
            self.lemma_push_event(pre, e);
            assert(ev_wf(e@, self@.table.len() as int));
        }
    }

    /// Appends a circle at the given center and radius, scaled by the
    /// current factor, using the current fill mode and color.
    pub fn add_circle(&mut self, x: Fixed, y: Fixed, radius: Fixed)
        requires
            old(self).wf(),
            in_range(x@),
            in_range(y@),
            in_range(radius@),
        ensures
            final(self).wf(),
            final(self)@ == spec_add_circle(old(self)@, x@, y@, radius@),
    {
        let e = DrawEvent::Circle {
            cx: self.scale_coord(x),
            cy: self.scale_coord(y),
            radius: self.scale_coord(radius),
        };
        let ghost pre = *self;
        self.events.push(e);
        proof {
            self.lemma_push_event(pre, e);
            assert(ev_wf(e@, self@.table.len() as int));
        }
    }

    /// Appends a cubic Bezier curve through the three control points,
    /// scaled by the current factor; always outlined.
    pub fn add_curve(&mut self, x1: Fixed, y1: Fixed, x2: Fixed, y2: Fixed, x3: Fixed, y3: Fixed)
        requires
            old(self).wf(),
            in_range(x1@),
            in_range(y1@),
            in_range(x2@),
            in_range(y2@),
            in_range(x3@),
            in_range(y3@),
        ensures
            final(self).wf(),
            final(self)@ == spec_add_curve(old(self)@, x1@, y1@, x2@, y2@, x3@, y3@),
    {
        let e = DrawEvent::Curve {
            x1: self.scale_coord(x1),
            y1: self.scale_coord(y1),
            x2: self.scale_coord(x2),
            y2: self.scale_coord(y2),
            x3: self.scale_coord(x3),
            y3: self.scale_coord(y3),
        };
        let ghost pre = *self;
        self.events.push(e);
        proof {
            self.lemma_push_event(pre, e);
            assert(ev_wf(e@, self@.table.len() as int));
        }
    }

    /// After pushing one event and one table entry, the abstract state is
    /// the old one with both appended.
    proof fn lemma_push_event_text(self, old_self: PSTool, e: DrawEvent, t: Seq<char>)
        requires
            self.events@ == old_self.events@.push(e),
            self.te@.len() == old_self.te@.len() + 1,
            forall|i: int| 0 <= i < old_self.te@.len() ==> self.te@[i] == old_self.te@[i],
            self.te@.last()@ == t,
            self.bbox == old_self.bbox,
            self.border == old_self.border,
            self.scale == old_self.scale,
            self.text_x == old_self.text_x,
            self.text_y == old_self.text_y,
            self.text_line_space == old_self.text_line_space,
            self.notes == old_self.notes,
        ensures
            self@ == (ToolView {
                events: old_self@.events.push(e@),
                table: old_self@.table.push(t),
                ..old_self@
            }),
            self@.table.len() == old_self@.table.len() + 1,
    {
        assert(self@.events =~= old_self@.events.push(e@));
        assert(self@.table =~= old_self@.table.push(t));
    }

    /// Extending the string table keeps every already recorded event well
    /// formed.
    proof fn lemma_table_grows(v: ToolView, w: ToolView)
        requires
            tool_wf(v),
            w.events == v.events.push(w.events.last()),
            ev_wf(w.events.last(), w.table.len() as int),
            w.table.len() >= v.table.len(),
            -MAX_SCALE <= w.scale <= MAX_SCALE,
            in_range(w.border),
            in_range(w.ebox.llx) && in_range(w.ebox.lly) && in_range(w.ebox.urx) && in_range(
                w.ebox.ury,
            ),
            -3_000_000_000 <= w.text_x <= 3_000_000_000,
            -3_000_000_000 <= w.text_y <= 3_000_000_000,
            -1_100_000_000 <= w.line_space <= 1_100_000_000,
        ensures
            tool_wf(w),
    {
        assert forall|i: int| 0 <= i < w.events.len() implies ev_wf(
            #[trigger] w.events[i],
            w.table.len() as int,
        ) by {
            if i < v.events.len() {
                assert(w.events[i] == v.events[i]);
                assert(ev_wf(v.events[i], v.table.len() as int));
            }
        }
    }

    /// Changing only settings (never the log or the table) keeps the state
    /// well formed as long as each setting stays within its range.
    proof fn lemma_wf_settings(v: ToolView, w: ToolView)
        requires
            tool_wf(v),
            w.events == v.events,
            w.table == v.table,
            -MAX_SCALE <= w.scale <= MAX_SCALE,
            in_range(w.border),
            in_range(w.ebox.llx) && in_range(w.ebox.lly) && in_range(w.ebox.urx) && in_range(
                w.ebox.ury,
            ),
            -3_000_000_000 <= w.text_x <= 3_000_000_000,
            -3_000_000_000 <= w.text_y <= 3_000_000_000,
            -1_100_000_000 <= w.line_space <= 1_100_000_000,
        ensures
            tool_wf(w),
    {
        assert forall|i: int| 0 <= i < w.events.len() implies ev_wf(
            #[trigger] w.events[i],
            w.table.len() as int,
        ) by {
            assert(ev_wf(v.events[i], v.table.len() as int));
        }
    }

    /// Appends raw page-description markup, emitted verbatim at its position
    /// in the stream.  Its extent is not tracked by bounding-box inference;
    /// callers relying on raw markup for visible extent must compensate with
    /// [`PSTool::set_bounds`].
    pub fn add_postscript(&mut self, t: String)
        requires
            old(self).wf(),
        ensures
            final(self).wf(),
            final(self)@ == spec_add_postscript(old(self)@, t@),
    {
        let e = DrawEvent::RawMarkup { sref: self.te.len() };
        let ghost pre = *self;
        self.events.push(e);
        self.te.push(t);
        proof {
            self.lemma_push_event_text(pre, e, t@);
            Self::lemma_table_grows(pre@, self@);
        }
    }

    /// Appends text at the given position (scaled by the current factor),
    /// unrotated, in the font, size and color current at its position.
    pub fn add_text(&mut self, x: Fixed, y: Fixed, t: String)
        requires
            old(self).wf(),
            in_range(x@),
            in_range(y@),
        ensures
            final(self).wf(),
            final(self)@ == spec_add_text(old(self)@, x@, y@, t@),
    {
        let e = DrawEvent::Text {
            sref: self.te.len(),
            x: self.scale_coord(x),
            y: self.scale_coord(y),
            angle: Fixed::zero(),
        };
        let ghost pre = *self;
        self.events.push(e);
        self.te.push(t);
        proof {
            self.lemma_push_event_text(pre, e, t@);
            Self::lemma_table_grows(pre@, self@);
        }
    }

    /// Appends text at the given position (scaled), rotated by the given
    /// angle in degrees; an angle of zero is the plain unrotated path.
    pub fn add_text_rotated(&mut self, x: Fixed, y: Fixed, angle: Fixed, t: String)
        requires
            old(self).wf(),
            in_range(x@),
            in_range(y@),
            in_range(angle@),
        ensures
            final(self).wf(),
            final(self)@ == spec_add_text_rotated(old(self)@, x@, y@, angle@, t@),
    {
        let e = DrawEvent::Text {
            sref: self.te.len(),
            x: self.scale_coord(x),
            y: self.scale_coord(y),
            angle,
        };
        let ghost pre = *self;
        self.events.push(e);
        self.te.push(t);
        proof {
            self.lemma_push_event_text(pre, e, t@);
            Self::lemma_table_grows(pre@, self@);
        }
    }

    /// Moves the text cursor (not scaled) for the sequential text-line
    /// placement of [`PSTool::add_text_ln`].
    pub fn set_text_ln(&mut self, x: Fixed, y: Fixed)
        requires
            old(self).wf(),
            in_range(x@),
            in_range(y@),
        ensures
            final(self).wf(),
            final(self)@ == spec_set_text_ln(old(self)@, x@, y@),
    {
        self.text_x = x;
        self.text_y = y;
        proof {
            Self::lemma_wf_settings(old(self)@, self@);
        }
    }

    /// Appends text at the current cursor position, then moves the cursor
    /// down by the active line spacing.
    pub fn add_text_ln(&mut self, t: String)
        requires
            old(self).wf(),
            in_range(old(self)@.text_x),
            in_range(old(self)@.text_y),
        ensures
            final(self).wf(),
            final(self)@ == spec_add_text_ln(old(self)@, t@),
    {
        let x = self.text_x;
        let y = self.text_y;
        self.add_text(x, y, t);
        let ghost mid = self@;
        self.text_y = Fixed::from_milli(y.m - self.text_line_space.m);
        proof {
            Self::lemma_wf_settings(mid, self@);
        }
    }

    /// Appends a comment: a non-executable annotation embedded in the output
    /// in sequence with the other events, with no visual effect.
    pub fn add_comment(&mut self, t: String)
        requires
            old(self).wf(),
        ensures
            final(self).wf(),
            final(self)@ == spec_add_comment(old(self)@, t@),
    {
        let e = DrawEvent::Comment { sref: self.te.len() };
        let ghost pre = *self;
        self.events.push(e);
        self.te.push(t);
        proof {
            self.lemma_push_event_text(pre, e, t@);
            Self::lemma_table_grows(pre@, self@);
        }
    }

    /// Stores a note.  Notes are kept apart from the event log and are all
    /// emitted near the start of the output, before any event-derived text.
    pub fn add_note(&mut self, s: String)
        requires
            old(self).wf(),
        ensures
            final(self).wf(),
            final(self)@ == spec_add_note(old(self)@, s@),
    {
        self.notes.push(s);
        proof {
            assert(self@.notes =~= old(self)@.notes.push(s@));
            Self::lemma_wf_settings(old(self)@, self@);
        }
    }

    /// Appends a color state event; each component is in the range zero to
    /// one.  The alpha component is recorded but does not affect the output.
    pub fn set_color(&mut self, r: Fixed, g: Fixed, b: Fixed, a: Fixed)
        requires
            old(self).wf(),
            in_range(r@),
            in_range(g@),
            in_range(b@),
            in_range(a@),
        ensures
            final(self).wf(),
            final(self)@ == spec_set_color(old(self)@, r@, g@, b@, a@),
    {
        let e = DrawEvent::SetColor { r, g, b, a };
        let ghost pre = *self;
        self.events.push(e);
        proof {
            self.lemma_push_event(pre, e);
            assert(ev_wf(e@, self@.table.len() as int));
        }
    }

    /// Appends a fill state event: `true` fills subsequent boxes and
    /// circles, `false` outlines them, until overridden.
    pub fn set_fill(&mut self, state: bool)
        requires
            old(self).wf(),
        ensures
            final(self).wf(),
            final(self)@ == spec_set_fill(old(self)@, state),
    {
        let e = DrawEvent::SetFill { enabled: state };
        let ghost pre = *self;
        self.events.push(e);
        proof {
            self.lemma_push_event(pre, e);
            assert(ev_wf(e@, self@.table.len() as int));
        }
    }

    /// Sets the border padding, added on all four sides of an inferred
    /// bounding box only — explicit bounds are never padded.
    pub fn set_border(&mut self, border: Fixed)
        requires
            old(self).wf(),
            in_range(border@),
        ensures
            final(self).wf(),
            final(self)@ == spec_set_border(old(self)@, border@),
    {
        self.border = border;
        proof {
            Self::lemma_wf_settings(old(self)@, self@);
        }
    }

    /// Sets explicit bounds, bypassing inference (and the border) entirely.
    pub fn set_bounds(&mut self, llx: Fixed, lly: Fixed, urx: Fixed, ury: Fixed)
        requires
            old(self).wf(),
            in_range(llx@),
            in_range(lly@),
            in_range(urx@),
            in_range(ury@),
        ensures
            final(self).wf(),
            final(self)@ == spec_set_bounds(old(self)@, llx@, lly@, urx@, ury@),
    {
        self.bbox.valid = true;
        self.bbox.llx = llx;
        self.bbox.lly = lly;
        self.bbox.urx = urx;
        self.bbox.ury = ury;
        proof {
            Self::lemma_wf_settings(old(self)@, self@);
        }
    }

    /// Sets the scale factor.  Only events appended afterwards are affected;
    /// recorded events are never rescaled.
    pub fn set_scale(&mut self, scale: Fixed)
        requires
            old(self).wf(),
            -MAX_SCALE <= scale@ <= MAX_SCALE,
        ensures
            final(self).wf(),
            final(self)@ == spec_set_scale(old(self)@, scale@),
    {
        self.scale = scale;
        proof {
            Self::lemma_wf_settings(old(self)@, self@);
        }
    }

    /// Appends a font state event selecting the named font at the given size
    /// (in points, not scaled), and resets the line spacing to eleven tenths
    /// of the size.
    pub fn set_font(&mut self, scale: Fixed, font: String)
        requires
            old(self).wf(),
            in_range(scale@),
        ensures
            final(self).wf(),
            final(self)@ == spec_set_font(old(self)@, scale@, font@),
    {
        proof {
            crate::fixed::lemma_tdiv_bound(scale@ * 1100, UNIT as int, 1_100_000_000);
        }
        self.text_line_space = Fixed::from_milli(div_trunc(scale.m * 1100, UNIT));
        let e = DrawEvent::SetFont { scale, sref: self.te.len() };
        let ghost pre = *self;
        self.events.push(e);
        self.te.push(font);
        proof {
            Self::lemma_wf_settings(old(self)@, pre@);
            self.lemma_push_event_text(pre, e, font@);
            Self::lemma_table_grows(pre@, self@);
        }
    }

    /// Generates a simple two-dimensional chart from a sequence of samples,
    /// drawn inside the given rectangle: the rectangle itself as a box event
    /// first, then one line event between each pair of consecutive samples.
    /// When `min == max` the vertical range is taken from the data itself;
    /// otherwise the supplied range is used and out-of-range samples are
    /// clamped to the rectangle's vertical extent.  Degenerate input — no
    /// samples, or a rectangle of zero width or height — appends nothing.
    pub fn chart(
        &mut self,
        data: Vec<Fixed>,
        min: Fixed,
        max: Fixed,
        llx: Fixed,
        lly: Fixed,
        urx: Fixed,
        ury: Fixed,
    )
        requires
            old(self).wf(),
            in_range(min@),
            in_range(max@),
            in_range(llx@),
            in_range(lly@),
            in_range(urx@),
            in_range(ury@),
            data@.len() <= 1_000_000,
            forall|i: int| 0 <= i < data@.len() ==> in_range((#[trigger] data@[i])@),
        ensures
            final(self).wf(),
            final(self)@ == spec_chart(
                old(self)@,
                data.deep_view(),
                min@,
                max@,
                llx@,
                lly@,
                urx@,
                ury@,
            ),
    {
        let ghost dv = data.deep_view();
        let n = data.len();
        if n == 0 || llx.m == urx.m || lly.m == ury.m {
            return ;
        }
        let mut cmin = min.m;
        let mut cmax = max.m;
        if min.m == max.m {
            cmin = data[0].m;
            cmax = data[0].m;
            proof {
                assert(dv.take(1).len() == 1);
                assert(dv.take(1)[0] == dv[0]);
            }
            let mut j: usize = 1;
            while j < n
                invariant
                    1 <= j <= n,
                    n == data@.len(),
                    dv == data.deep_view(),
                    forall|i: int| 0 <= i < data@.len() ==> in_range((#[trigger] data@[i])@),
                    cmin == seq_min(dv.take(j as int)),
                    cmax == seq_max(dv.take(j as int)),
                    in_range(cmin as int),
                    in_range(cmax as int),
                decreases n - j,
            {
                proof {
                    assert(dv.take(j + 1).drop_last() =~= dv.take(j as int));
                    assert(dv.take(j + 1).last() == dv[j as int]);
                    assert(dv[j as int] == data@[j as int]@);
                }
                if data[j].m < cmin {
                    cmin = data[j].m;
                }
                if data[j].m > cmax {
                    cmax = data[j].m;
                }
                j = j + 1;
            }
            proof {
                assert(dv.take(n as int) =~= dv);
            }
        }
        let ghost gcmin: int = if min@ != max@ {
            min@
        } else {
            seq_min(dv)
        };
        let ghost gcmax: int = if min@ != max@ {
            max@
        } else {
            seq_max(dv)
        };
        proof {
            assert(cmin == gcmin);
            assert(cmax == gcmax);
        }
        self.add_box(llx, lly, urx, ury);
        let ghost v1 = self@;
        let ghost target = spec_chart_lines(v1, dv, gcmin, gcmax, llx@, lly@, urx@, ury@, 1);
        let range = cmax - cmin;
        let mut i: usize = 1;
        while i < n
            invariant
                self.wf(),
                1 <= i <= n,
                1 <= n <= 1_000_000,
                n == data@.len(),
                dv == data.deep_view(),
                forall|k: int| 0 <= k < data@.len() ==> in_range((#[trigger] data@[k])@),
                in_range(llx@) && in_range(lly@) && in_range(urx@) && in_range(ury@),
                in_range(gcmin) && in_range(gcmax),
                cmin == gcmin,
                cmax == gcmax,
                range == gcmax - gcmin,
                spec_chart_lines(self@, dv, gcmin, gcmax, llx@, lly@, urx@, ury@, i as int)
                    == target,
            decreases n - i,
        {
            proof {
                assert(dv[i - 1] == data@[i - 1]@);
                assert(dv[i as int] == data@[i as int]@);
            }
            let x0 = chart_x_exec(llx.m, urx.m, (i - 1) as i64, n as i64);
            let y0 = chart_y_exec(lly.m, ury.m, data[i - 1].m, cmin, range);
            let x1 = chart_x_exec(llx.m, urx.m, i as i64, n as i64);
            let y1 = chart_y_exec(lly.m, ury.m, data[i].m, cmin, range);
            self.add_line(
                Fixed::from_milli(x0),
                Fixed::from_milli(y0),
                Fixed::from_milli(x1),
                Fixed::from_milli(y1),
            );
            i = i + 1;
        }
        proof {
            assert(spec_chart_lines(self@, dv, gcmin, gcmax, llx@, lly@, urx@, ury@, n as int)
                == self@);
        }
    }

    /// Returns the bounding box of the recorded events, as
    /// `(llx, lly, urx, ury)`.  Explicit bounds are returned verbatim; an
    /// inferred box scans boxes, lines and circles only (curves, text, raw
    /// markup and state events are ignored) and is expanded by the border on
    /// all four sides; with no qualifying event the all-zero rectangle is
    /// expanded instead.
    pub fn bbox(&self) -> (r: (Fixed, Fixed, Fixed, Fixed))
        requires
            self.wf(),
        ensures
            (r.0@, r.1@, r.2@, r.3@) == spec_bbox(self@),
            -2_000_000_000_000 <= r.0@ <= 2_000_000_000_000,
            -2_000_000_000_000 <= r.1@ <= 2_000_000_000_000,
            -2_000_000_000_000 <= r.2@ <= 2_000_000_000_000,
            -2_000_000_000_000 <= r.3@ <= 2_000_000_000_000,
    {
        if self.bbox.valid {
            return (self.bbox.llx, self.bbox.lly, self.bbox.urx, self.bbox.ury);
        }
        let mut acc = BBox::new();
        let mut i: usize = 0;
        while i < self.events.len()
            invariant
                self.wf(),
                !self@.ebox.valid,
                i <= self@.events.len(),
                acc@ == scan_events(self@.events.take(i as int)),
                bb_store_range(acc@),
            decreases self@.events.len() - i,
        {
            let e = self.events[i];
            proof {
                assert(self@.events.take(i + 1).drop_last() =~= self@.events.take(i as int));
                assert(self@.events.take(i + 1).last() == self@.events[i as int]);
                assert(self@.events[i as int] == e@);
                assert(ev_wf(e@, self@.table.len() as int));
            }
            match e {
                DrawEvent::Rect { llx, lly, urx, ury } => {
                    scan_addpoint(&mut acc, llx.m, lly.m);
                    scan_addpoint(&mut acc, urx.m, ury.m);
                },
                DrawEvent::Line { llx, lly, urx, ury } => {
                    scan_addpoint(&mut acc, llx.m, lly.m);
                    scan_addpoint(&mut acc, urx.m, ury.m);
                },
                DrawEvent::Circle { cx, cy, radius } => {
                    scan_addpoint(&mut acc, cx.m, cy.m);
                    scan_addpoint(&mut acc, radius.m, 0);
                },
                _ => {},
            }
            proof {
                assert(acc@ == scan_step(scan_events(self@.events.take(i as int)), e@));
            }
            i = i + 1;
        }
        proof {
            assert(self@.events.take(self@.events.len() as int) =~= self@.events);
        }
        let b = self.border.m;
        if acc.valid {
            (
                Fixed::from_milli(acc.llx.m - b),
                Fixed::from_milli(acc.lly.m - b),
                Fixed::from_milli(acc.urx.m + b),
                Fixed::from_milli(acc.ury.m + b),
            )
        } else {
            (Fixed::from_milli(-b), Fixed::from_milli(-b), Fixed::from_milli(b), Fixed::from_milli(b))
        }
    }

    /// Builds the fixed preamble of the output: format identification, the
    /// document bounds, language level and page count, a conversion hint,
    /// one annotation line per note, and the default font selection.
    pub fn header(&self) -> (s: String)
        requires
            self.wf(),
        ensures
            s@ == header_text(self@),
    {
        let (bllx, blly, burx, bury) = self.bbox();
        let mut s = String::new();
        s.append("%!PS-Adobe-3.0 EPSF-3.0\n");
        s.append("%%DocumentData: Clean7Bit\n");
        s.append("%%Origin: ");
        push_fixed(&mut s, bllx.m);
        s.append(" ");
        push_fixed(&mut s, blly.m);
        s.append("\n");
        s.append("%%BoundingBox: ");
        push_fixed(&mut s, bllx.m);
        s.append(" ");
        push_fixed(&mut s, blly.m);
        s.append(" ");
        push_fixed(&mut s, burx.m);
        s.append(" ");
        push_fixed(&mut s, bury.m);
        s.append("\n");
        s.append("%%LanguageLevel: 2\n");
        s.append("%%Pages: 1\n");
        s.append("%%Page: 1 1\n");
        s.append("%% gs -o filename.pdf -sDEVICE=pdfwrite -dEPSCrop filename.ps\n");
        s.append("%% PSTools PostScript Generator\n");
        s.append("%% \n");
        let ghost h0 = s@;
        let mut i: usize = 0;
        proof {
            assert(h0 + notes_text(self@.notes.take(0)) =~= h0);
        }
        while i < self.notes.len()
            invariant
                self.wf(),
                i <= self@.notes.len(),
                self.notes@.len() == self@.notes.len(),
                s@ == h0 + notes_text(self@.notes.take(i as int)),
            decreases self@.notes.len() - i,
        {
            s.append("%% ");
            s.append(self.notes[i].as_str());
            s.append("\n");
            proof {
                assert(self@.notes[i as int] == self.notes@[i as int]@);
                lemma_notes_text_snoc(self@.notes.take(i as int), self@.notes[i as int]);
                assert(self@.notes.take(i + 1) =~= self@.notes.take(i as int).push(
                    self@.notes[i as int],
                ));
                assert(s@ =~= h0 + notes_text(self@.notes.take(i + 1)));
            }
            i = i + 1;
        }
        proof {
            assert(self@.notes.take(self@.notes.len() as int) =~= self@.notes);
        }
        s.append("/Courier findfont 15 scalefont setfont\n");
        proof {
            assert(s@ =~= header_text(self@));
        }
        s
    }

    /// Serializes the whole scene: the preamble, one instruction group per
    /// event in insertion order — threading the fill mode, initially off,
    /// through the fill state events — and the end-of-document marker.
    pub fn generate(&self) -> (out: String)
        requires
            self.wf(),
        ensures
            out@ == spec_render(self@),
    {
        let mut out = self.header();
        let mut fill = false;
        let mut i: usize = 0;
        proof {
            assert(out@ =~= header_text(self@) + events_text(
                self@.events.take(0),
                self@.table,
                false,
            ));
        }
        while i < self.events.len()
            invariant
                self.wf(),
                i <= self@.events.len(),
                self.events@.len() == self@.events.len(),
                out@ == header_text(self@) + events_text(self@.events.take(i as int), self@.table, false),
                fill == fill_after(self@.events.take(i as int), false),
            decreases self@.events.len() - i,
        {
            let e = self.events[i];
            proof {
                assert(self@.events[i as int] == e@);
                assert(ev_wf(e@, self@.table.len() as int));
            }
            let es = event_string(&e, &self.te, fill);
            out.append(es.as_str());
            match e {
                DrawEvent::SetFill { enabled } => {
                    fill = enabled;
                },
                _ => {},
            }
            proof {
                crate::render::lemma_events_text_snoc(
                    self@.events.take(i as int),
                    self@.table,
                    false,
                    e@,
                );
                assert(self@.events.take(i + 1) =~= self@.events.take(i as int).push(e@));
                assert(out@ =~= header_text(self@) + events_text(
                    self@.events.take(i + 1),
                    self@.table,
                    false,
                ));
            }
            i = i + 1;
        }
        proof {
            assert(self@.events.take(self@.events.len() as int) =~= self@.events);
        }
        out.append("%%EOF\n\n");
        proof {
            assert(out@ =~= spec_render(self@));
        }
        out
    }

    /// Applies one (untrimmed) command line to the builder: the first
    /// grammar matching the trimmed line dispatches to the corresponding
    /// call, and a line matching none is silently skipped.
    fn run_line(&mut self, line: &str)
        requires
            old(self).wf(),
        ensures
            final(self).wf(),
            final(self)@ == process_line(old(self)@, line@),
    {
        let t = trim_exec(line);
        let tn = t.unicode_len();
        if let Some(j) = kw_start(t, "box", tn) {
            if let Some((vs, _e)) = nums_chain_exec(t, j, 4, tn) {
                self.add_box(
                    Fixed::from_milli(vs[0]),
                    Fixed::from_milli(vs[1]),
                    Fixed::from_milli(vs[2]),
                    Fixed::from_milli(vs[3]),
                );
                return ;
            }
        }
        if let Some(j) = kw_start(t, "line", tn) {
            if let Some((vs, _e)) = nums_chain_exec(t, j, 4, tn) {
                self.add_line(
                    Fixed::from_milli(vs[0]),
                    Fixed::from_milli(vs[1]),
                    Fixed::from_milli(vs[2]),
                    Fixed::from_milli(vs[3]),
                );
                return ;
            }
        }
        if let Some(j) = kw_start(t, "circle", tn) {
            if let Some((vs, _e)) = nums_chain_exec(t, j, 3, tn) {
                self.add_circle(
                    Fixed::from_milli(vs[0]),
                    Fixed::from_milli(vs[1]),
                    Fixed::from_milli(vs[2]),
                );
                return ;
            }
        }
        if let Some(j) = kw_start(t, "color", tn) {
            if let Some((vs, _e)) = nums_chain_exec(t, j, 3, tn) {
                self.set_color(
                    Fixed::from_milli(vs[0]),
                    Fixed::from_milli(vs[1]),
                    Fixed::from_milli(vs[2]),
                    Fixed::from_milli(1000),
                );
                return ;
            }
        }
        if let Some(j) = kw_start(t, "fill", tn) {
            if let Some((on, _e)) = uint_nonzero_exec(t, j, tn) {
                self.set_fill(on);
                return ;
            }
        }
        if let Some(j) = kw_start(t, "curve", tn) {
            if let Some((vs, _e)) = nums_chain_exec(t, j, 6, tn) {
                self.add_curve(
                    Fixed::from_milli(vs[0]),
                    Fixed::from_milli(vs[1]),
                    Fixed::from_milli(vs[2]),
                    Fixed::from_milli(vs[3]),
                    Fixed::from_milli(vs[4]),
                    Fixed::from_milli(vs[5]),
                );
                return ;
            }
        }
        if let Some(j) = kw_start(t, "font", tn) {
            if let Some((sc, j2)) = number_exec(t, j, tn) {
                if let Some(name) = rest_exec(t, j2, tn) {
                    self.set_font(Fixed::from_milli(sc), name);
                    return ;
                }
            }
        }
        if let Some(j) = kw_start(t, "text", tn) {
            if let Some((vs, j2)) = nums_chain_exec(t, j, 2, tn) {
                if let Some(s) = rest_exec(t, j2, tn) {
                    self.add_text(Fixed::from_milli(vs[0]), Fixed::from_milli(vs[1]), s);
                    return ;
                }
            }
        }
        if let Some(j) = kw_start(t, "comment", tn) {
            if let Some(s) = rest_exec(t, j, tn) {
                self.add_comment(s);
                return ;
            }
        }
    }

    /// Parses a whole command text, one instruction per line, dispatching
    /// each recognized line to the corresponding builder call.  Blank lines,
    /// `#` comments, and lines matching no grammar are silently skipped; the
    /// end of the input terminates parsing with no error.
    pub fn parse(&mut self, input: &str)
        requires
            old(self).wf(),
        ensures
            final(self).wf(),
            final(self)@ == spec_parse(old(self)@, input@),
    {
        let n = input.unicode_len();
        let mut i: usize = 0;
        while i < n
            invariant
                self.wf(),
                n == input@.len(),
                i <= n + 1,
                spec_parse_from(old(self)@, input@, 0) == spec_parse_from(self@, input@, i as int),
            decreases n + 1 - i,
        {
            let mut e = i;
            while e < n && input.get_char(e) != '\n'
                invariant
                    n == input@.len(),
                    i <= e <= n,
                    forall|k: int| i <= k < e ==> input@[k] != '\n',
                decreases n - e,
            {
                e = e + 1;
            }
            proof {
                lemma_line_end_at(input@, i as int, e as int);
            }
            let line = input.substring_char(i, e);
            let ghost pre = self@;
            self.run_line(line);
            proof {
                assert(line@ == input@.subrange(i as int, e as int));
                assert(spec_parse_from(pre, input@, i as int) == spec_parse_from(
                    process_line(pre, input@.subrange(i as int, e as int)),
                    input@,
                    e + 1,
                ));
            }
            if e < n {
                i = e + 1;
            } else {
                proof {
                    assert(spec_parse_from(self@, input@, e + 1) == self@);
                    assert(spec_parse_from(self@, input@, n as int) == self@);
                }
                i = n;
            }
        }
        proof {
            assert(spec_parse_from(self@, input@, i as int) == self@);
        }
    }

    /// Adds a spread of events demonstrating every drawing operation —
    /// filled and outlined boxes, lines, circles, a fan of curves, colored
    /// and rotated text, automatic text lines, raw markup, a chart — and
    /// finally sets explicit bounds for the whole scene.
    pub fn demo(&mut self)
        requires
            old(self).wf(),
        ensures
            final(self).wf(),
            final(self)@.ebox == (BBoxV {
                valid: true,
                llx: -5000,
                lly: -10000,
                urx: 210000,
                ury: 208000,
            }),
            final(self)@.events.len() > old(self)@.events.len(),
            old(self)@.events.is_prefix_of(final(self)@.events),
    {
        self.add_note("This is a note -- placed towards the start of the PS file.".to_owned());

        self.set_fill(true);
        self.set_color(
            Fixed::from_milli(300),
            Fixed::from_milli(400),
            Fixed::from_milli(200),
            Fixed::from_milli(1000),
        );
        self.add_box(
            Fixed::from_int(5),
            Fixed::from_int(5),
            Fixed::from_int(20),
            Fixed::from_int(30),
        );
        self.set_color(
            Fixed::from_milli(800),
            Fixed::from_milli(100),
            Fixed::from_milli(200),
            Fixed::from_milli(1000),
        );
        self.add_box(
            Fixed::from_int(35),
            Fixed::from_int(19),
            Fixed::from_int(7),
            Fixed::from_int(16),
        );
        self.add_line(
            Fixed::from_milli(33200),
            Fixed::from_milli(44100),
            Fixed::from_milli(8700),
            Fixed::from_milli(5500),
        );
        self.add_comment("This text is inserted directly into the PS file".to_owned());
        self.add_comment("The location of this comment is after some earlier PS events".to_owned());

        self.set_color(
            Fixed::from_milli(100),
            Fixed::from_milli(100),
            Fixed::from_milli(800),
            Fixed::from_milli(1000),
        );
        self.set_fill(false);
        self.add_box(
            Fixed::from_int(50),
            Fixed::from_int(50),
            Fixed::from_int(60),
            Fixed::from_int(60),
        );

        self.set_color(
            Fixed::from_milli(100),
            Fixed::from_milli(100),
            Fixed::from_milli(800),
            Fixed::from_milli(1000),
        );
        self.set_fill(true);
        self.add_box(
            Fixed::from_int(70),
            Fixed::from_int(70),
            Fixed::from_int(80),
            Fixed::from_int(80),
        );

        self.set_color(
            Fixed::zero(),
            Fixed::zero(),
            Fixed::zero(),
            Fixed::from_milli(1000),
        );
        self.add_text(Fixed::from_int(10), Fixed::from_int(10), "1 Hello World".to_owned());

        self.set_color(
            Fixed::zero(),
            Fixed::zero(),
            Fixed::from_milli(1000),
            Fixed::from_milli(1000),
        );
        self.set_font(Fixed::from_int(20), "Times-Roman".to_owned());
        self.add_text(Fixed::from_int(10), Fixed::from_int(30), "2 Hello World".to_owned());

        self.set_font(Fixed::from_int(20), "Helvetica".to_owned());
        self.set_color(
            Fixed::zero(),
            Fixed::from_milli(1000),
            Fixed::zero(),
            Fixed::from_milli(1000),
        );
        self.add_text(Fixed::from_int(10), Fixed::from_int(50), "3 Hello World".to_owned());

        self.set_border(Fixed::from_int(10));

        self.add_circle(Fixed::from_int(100), Fixed::from_int(40), Fixed::from_int(8));
        self.set_color(
            Fixed::from_milli(1000),
            Fixed::zero(),
            Fixed::zero(),
            Fixed::from_milli(1000),
        );
        self.set_fill(false);
        self.add_circle(Fixed::from_int(120), Fixed::from_int(80), Fixed::from_int(30));

        self.set_color(
            Fixed::from_milli(1000),
            Fixed::zero(),
            Fixed::zero(),
            Fixed::from_milli(1000),
        );

        let ghost before_curves = self@;
        proof {
            assert(before_curves.events =~= before_curves.events.subrange(
                0,
                before_curves.events.len() as int,
            ));
        }
        let mut i: i64 = 1;
        while i < 10
            invariant
                self.wf(),
                1 <= i <= 10,
                before_curves.events.is_prefix_of(self@.events),
            decreases 10 - i,
        {
            let ghost at_top = self@;
            self.set_color(
                Fixed::from_milli(600),
                Fixed::from_milli(i * 100),
                Fixed::from_milli(i * 100),
                Fixed::from_milli(1000),
            );
            let ghost at_mid = self@;
            self.add_curve(
                Fixed::from_milli(4000),
                Fixed::from_milli(150000),
                Fixed::from_milli(90000),
                Fixed::from_milli(30000 + i * 6000),
                Fixed::from_milli(150000),
                Fixed::from_milli(8000 + i * 11000),
            );
            proof {
                lemma_prefix_push(before_curves.events, at_top.events, at_mid.events.last());
                lemma_prefix_push(before_curves.events, at_mid.events, self@.events.last());
            }
            i = i + 1;
        }

        self.add_postscript("gsave 100 100 translate 20 rotate".to_owned());
        self.set_fill(true);
        self.add_box(
            Fixed::from_int(-5),
            Fixed::from_int(15),
            Fixed::from_int(100),
            Fixed::from_int(-30),
        );
        self.set_color(
            Fixed::zero(),
            Fixed::zero(),
            Fixed::zero(),
            Fixed::from_milli(1000),
        );
        self.set_fill(false);
        self.set_font(Fixed::from_int(5), "Helvetica-Bold".to_owned());
        self.set_text_ln(Fixed::zero(), Fixed::zero());
        self.add_text_ln("Raw PostScript canvas translation and rotation".to_owned());
        self.add_text_ln("add_text_ln will advance to new lines".to_owned());
        self.add_text_ln("Automatic".to_owned());
        self.add_text_ln("Line".to_owned());
        self.add_text_ln("Advancing".to_owned());

        self.add_postscript("grestore".to_owned());

        let ghost before_data = self@;
        let mut data: Vec<Fixed> = Vec::new();
        let mut k: u64 = 0;
        while k < 100
            invariant
                self.wf(),
                self@ == before_data,
                k <= 100,
                data@.len() == k,
                forall|t: int| 0 <= t < data@.len() ==> in_range((#[trigger] data@[t])@),
            decreases 100 - k,
        {
            let phase = (k % 40) as i64;
            let v: i64 = if phase < 20 {
                phase * 100 - 1000
            } else {
                3000 - phase * 100
            };
            data.push(Fixed::from_milli(v));
            k = k + 1;
        }
        self.set_color(
            Fixed::from_milli(300),
            Fixed::from_milli(300),
            Fixed::from_milli(300),
            Fixed::from_milli(1000),
        );
        let ghost before_chart = self@;
        let ghost chart_data = data.deep_view();
        self.chart(
            data,
            Fixed::from_milli(-1200),
            Fixed::from_milli(1200),
            Fixed::from_int(100),
            Fixed::from_int(100),
            Fixed::from_int(300),
            Fixed::from_int(200),
        );
        proof {
            let v1 = spec_add_box(before_chart, 100000, 100000, 300000, 200000);
            crate::model::lemma_chart_lines_prefix(
                v1,
                chart_data,
                -1200,
                1200,
                100000,
                100000,
                300000,
                200000,
                1,
            );
            assert(before_chart.events =~= before_chart.events.subrange(
                0,
                before_chart.events.len() as int,
            ));
            lemma_prefix_push(before_chart.events, before_chart.events, v1.events.last());
            crate::model::lemma_prefix_trans(
                before_chart.events,
                v1.events,
                self@.events,
            );
        }
        let ghost after_chart = self@;

        self.set_color(
            Fixed::from_milli(100),
            Fixed::from_milli(100),
            Fixed::from_milli(1000),
            Fixed::from_milli(1000),
        );
        self.set_font(Fixed::from_int(15), "Courier".to_owned());
        let version = crate::pstools_version();
        self.add_text(Fixed::from_int(30), Fixed::from_int(160), version);

        self.add_text_rotated(
            Fixed::from_int(15),
            Fixed::from_int(60),
            Fixed::from_int(90),
            "Rotated text".to_owned(),
        );

        self.set_bounds(
            Fixed::from_int(-5),
            Fixed::from_int(-10),
            Fixed::from_int(210),
            Fixed::from_int(208),
        );
        proof {
            assert(old(self)@.events.is_prefix_of(before_curves.events)) by {
                assert(old(self)@.events =~= before_curves.events.subrange(
                    0,
                    old(self)@.events.len() as int,
                ));
            }
            assert(before_curves.events.is_prefix_of(before_chart.events)) by {
                assert(before_curves.events =~= before_chart.events.subrange(
                    0,
                    before_curves.events.len() as int,
                ));
            }
            assert(after_chart.events.is_prefix_of(self@.events)) by {
                assert(after_chart.events =~= self@.events.subrange(
                    0,
                    after_chart.events.len() as int,
                ));
            }
            crate::model::lemma_prefix_trans(
                old(self)@.events,
                before_curves.events,
                before_chart.events,
            );
            crate::model::lemma_prefix_trans(
                old(self)@.events,
                before_chart.events,
                after_chart.events,
            );
            crate::model::lemma_prefix_trans(old(self)@.events, after_chart.events, self@.events);
        }
    }

    /// The number of recorded events.  Callers use a count of zero to decide
    /// that output generation would be meaningless.
    pub fn len(&self) -> (n: usize)
        ensures
            n == self@.events.len(),
    {
        self.events.len()
    }

    /// The recorded event at position `i` (insertion order).
    pub fn event(&self, i: usize) -> (e: DrawEvent)
        requires
            i < self@.events.len(),
        ensures
            e@ == self@.events[i as int],
    {
        self.events[i]
    }
}

} // verus!
