//! The serializer: one textual instruction group per recorded event.
//!
//! Serialization is a single forward pass over the event log.  The only
//! carried state is the fill mode, initially off: a fill event updates it
//! and emits nothing, and every box or circle is filled or outlined
//! according to the mode carried from the events before it.  The exact text
//! of the whole document is pinned down by [`spec_render`].

use crate::decimal::{fixed_to_string, fmt_fixed};
use crate::event::{ev_wf, DrawEvent, EventView};
use crate::model::{spec_bbox, ToolView};
use vstd::prelude::*;
use vstd::string::StringExecFns;

verus! {

/// The fill mode after one event: a fill event overrides it, every other
/// event carries it forward.
pub open spec fn next_fill(e: EventView, fill: bool) -> bool {
    match e {
        EventView::SetFill { enabled } => enabled,
        _ => fill,
    }
}

/// The fill mode after a whole log, starting from `f0`.
pub open spec fn fill_after(evs: Seq<EventView>, f0: bool) -> bool
    decreases evs.len(),
{
    if evs.len() == 0 {
        f0
    } else {
        fill_after(evs.drop_first(), next_fill(evs[0], f0))
    }
}

/// The instruction group emitted for one event under the given fill mode.
pub open spec fn event_text(e: EventView, table: Seq<Seq<char>>, fill: bool) -> Seq<char> {
    match e {
        EventView::SetColor { r, g, b, a: _ } => fmt_fixed(r) + " "@ + fmt_fixed(g) + " "@
            + fmt_fixed(b) + " setrgbcolor\n"@,
        EventView::Rect { llx, lly, urx, ury } => "newpath "@ + fmt_fixed(llx) + " "@ + fmt_fixed(
            lly,
        ) + " moveto\n"@ + fmt_fixed(llx) + " "@ + fmt_fixed(ury) + " lineto\n"@ + fmt_fixed(urx)
            + " "@ + fmt_fixed(ury) + " lineto\n"@ + fmt_fixed(urx) + " "@ + fmt_fixed(lly)
            + " lineto\n"@ + fmt_fixed(llx) + " "@ + fmt_fixed(lly) + " lineto\n"@ + (if fill {
            "closepath fill\n"@
        } else {
            "stroke\n"@
        }),
        EventView::Line { llx, lly, urx, ury } => "newpath "@ + fmt_fixed(llx) + " "@ + fmt_fixed(
            lly,
        ) + " moveto\n"@ + fmt_fixed(urx) + " "@ + fmt_fixed(ury) + " lineto\n"@ + "stroke\n"@,
        EventView::Circle { cx, cy, radius } => "newpath "@ + fmt_fixed(cx) + " "@ + fmt_fixed(cy)
            + " "@ + fmt_fixed(radius) + (if fill {
            " 0 360 arc fill\n"@
        } else {
            " 0 360 arc stroke\n"@
        }),
        EventView::Curve { x1, y1, x2, y2, x3, y3 } => "newpath "@ + fmt_fixed(x1) + " "@
            + fmt_fixed(y1) + " moveto "@ + fmt_fixed(x1) + " "@ + fmt_fixed(y1) + " "@ + fmt_fixed(
            x2,
        ) + " "@ + fmt_fixed(y2) + " "@ + fmt_fixed(x3) + " "@ + fmt_fixed(y3)
            + " curveto stroke\n"@,
        EventView::SetFill { enabled: _ } => Seq::empty(),
        EventView::Text { sref, x, y, angle } => {
            if angle != 0 {
                "gsave "@ + fmt_fixed(x) + " "@ + fmt_fixed(y) + " translate "@ + fmt_fixed(angle)
                    + " rotate 0 0 moveto\n"@ + "("@ + table[sref] + ") show grestore\n"@
            } else {
                fmt_fixed(x) + " "@ + fmt_fixed(y) + " moveto\n"@ + "("@ + table[sref]
                    + ") show\n"@
            }
        },
        EventView::Comment { sref } => "%% "@ + table[sref] + "\n"@,
        EventView::SetFont { scale, sref } => "/"@ + table[sref] + " findfont "@ + fmt_fixed(scale)
            + " scalefont setfont\n"@,
        EventView::RawMarkup { sref } => table[sref] + "\n"@,
    }
}

/// The concatenated instruction groups of a log, threading the fill mode
/// forward from `f0`.
pub open spec fn events_text(evs: Seq<EventView>, table: Seq<Seq<char>>, f0: bool) -> Seq<char>
    decreases evs.len(),
{
    if evs.len() == 0 {
        Seq::empty()
    } else {
        event_text(evs[0], table, f0) + events_text(
            evs.drop_first(),
            table,
            next_fill(evs[0], f0),
        )
    }
}

/// One annotation line per accumulated note, in order.
pub open spec fn notes_text(notes: Seq<Seq<char>>) -> Seq<char>
    decreases notes.len(),
{
    if notes.len() == 0 {
        Seq::empty()
    } else {
        "%% "@ + notes[0] + "\n"@ + notes_text(notes.drop_first())
    }
}

/// The fixed preamble: format identification, document bounds (explicit or
/// inferred), language level and page count, a conversion hint, the
/// accumulated notes, and the default font selection.
pub open spec fn header_text(v: ToolView) -> Seq<char> {
    let b = spec_bbox(v);
    "%!PS-Adobe-3.0 EPSF-3.0\n"@ + "%%DocumentData: Clean7Bit\n"@ + "%%Origin: "@ + fmt_fixed(b.0)
        + " "@ + fmt_fixed(b.1) + "\n"@ + "%%BoundingBox: "@ + fmt_fixed(b.0) + " "@ + fmt_fixed(
        b.1,
    ) + " "@ + fmt_fixed(b.2) + " "@ + fmt_fixed(b.3) + "\n"@ + "%%LanguageLevel: 2\n"@
        + "%%Pages: 1\n"@ + "%%Page: 1 1\n"@
        + "%% gs -o filename.pdf -sDEVICE=pdfwrite -dEPSCrop filename.ps\n"@
        + "%% PSTools PostScript Generator\n"@ + "%% \n"@ + notes_text(v.notes)
        + "/Courier findfont 15 scalefont setfont\n"@
}

/// The full document: preamble, one instruction group per event with the
/// fill mode initially off, and the end-of-document marker.
pub open spec fn spec_render(v: ToolView) -> Seq<char> {
    header_text(v) + events_text(v.events, v.table, false) + "%%EOF\n\n"@
}

/// Law: appending one event appends its instruction group, rendered under
/// the fill mode carried over the whole previous log.
pub proof fn lemma_events_text_snoc(
    evs: Seq<EventView>,
    table: Seq<Seq<char>>,
    f0: bool,
    e: EventView,
)
    ensures
        events_text(evs.push(e), table, f0) == events_text(evs, table, f0) + event_text(
            e,
            table,
            fill_after(evs, f0),
        ),
        fill_after(evs.push(e), f0) == next_fill(e, fill_after(evs, f0)),
    decreases evs.len(),
{
    let q = evs.push(e);
    if evs.len() == 0 {
        assert(q[0] == e);
        assert(q.drop_first() =~= Seq::<EventView>::empty());
        assert(events_text(q.drop_first(), table, next_fill(e, f0)) == Seq::<char>::empty());
        assert(fill_after(q.drop_first(), next_fill(e, f0)) == next_fill(e, f0));
        assert(fill_after(q, f0) == next_fill(e, f0));
        assert(fill_after(evs, f0) == f0);
        assert(events_text(q, table, f0) =~= events_text(evs, table, f0) + event_text(
            e,
            table,
            f0,
        ));
    } else {
        assert(q[0] == evs[0]);
        let f1 = next_fill(evs[0], f0);
        assert(q.drop_first() =~= evs.drop_first().push(e));
        lemma_events_text_snoc(evs.drop_first(), table, f1, e);
        assert(fill_after(q, f0) == fill_after(q.drop_first(), f1));
        assert(fill_after(evs, f0) == fill_after(evs.drop_first(), f1));
        assert(events_text(q, table, f0) == event_text(evs[0], table, f0) + events_text(
            q.drop_first(),
            table,
            f1,
        ));
        assert(events_text(q, table, f0) =~= events_text(evs, table, f0) + event_text(
            e,
            table,
            fill_after(evs, f0),
        ));
    }
}

/// Law: the serialized log splits around any position `i`: the text of the
/// events before it, then event `i`'s own instruction group rendered under
/// the fill mode carried from those events, then the rest.
pub proof fn lemma_events_text_split(
    evs: Seq<EventView>,
    table: Seq<Seq<char>>,
    f0: bool,
    i: int,
)
    requires
        0 <= i < evs.len(),
    ensures
        events_text(evs, table, f0) == events_text(evs.take(i), table, f0) + event_text(
            evs[i],
            table,
            fill_after(evs.take(i), f0),
        ) + events_text(evs.skip(i + 1), table, fill_after(evs.take(i + 1), f0)),
    decreases i,
{
    if i == 0 {
        assert(evs.take(0) =~= Seq::<EventView>::empty());
        assert(evs.take(1) =~= Seq::<EventView>::empty().push(evs[0]));
        lemma_events_text_snoc(Seq::<EventView>::empty(), table, f0, evs[0]);
        assert(evs.skip(1) =~= evs.drop_first());
        assert(events_text(evs, table, f0) =~= events_text(evs.take(0), table, f0) + event_text(
            evs[0],
            table,
            fill_after(evs.take(0), f0),
        ) + events_text(evs.skip(1), table, fill_after(evs.take(1), f0)));
    } else {
        let rest = evs.drop_first();
        let f1 = next_fill(evs[0], f0);
        lemma_events_text_split(rest, table, f1, i - 1);
        assert(rest.take(i - 1) =~= evs.take(i).drop_first());
        assert(rest.skip(i) =~= evs.skip(i + 1));
        assert(rest.take(i) =~= evs.take(i + 1).drop_first());
        assert(rest[i - 1] == evs[i]);
        assert(evs.take(i)[0] == evs[0]);
        assert(evs.take(i + 1)[0] == evs[0]);
        assert(fill_after(evs.take(i), f0) == fill_after(rest.take(i - 1), f1));
        assert(fill_after(evs.take(i + 1), f0) == fill_after(rest.take(i), f1));
        assert(events_text(evs.take(i), table, f0) == event_text(evs[0], table, f0) + events_text(
            rest.take(i - 1),
            table,
            f1,
        ));
        assert(events_text(evs, table, f0) =~= events_text(evs.take(i), table, f0) + event_text(
            evs[i],
            table,
            fill_after(evs.take(i), f0),
        ) + events_text(evs.skip(i + 1), table, fill_after(evs.take(i + 1), f0)));
    }
}

/// Appending one note appends one annotation line.
pub proof fn lemma_notes_text_snoc(notes: Seq<Seq<char>>, t: Seq<char>)
    ensures
        notes_text(notes.push(t)) == notes_text(notes) + ("%% "@ + t + "\n"@),
    decreases notes.len(),
{
    let q = notes.push(t);
    if notes.len() == 0 {
        assert(q[0] == t);
        assert(q.drop_first() =~= Seq::<Seq<char>>::empty());
        assert(notes_text(q.drop_first()) == Seq::<char>::empty());
        assert(notes_text(q) =~= notes_text(notes) + ("%% "@ + t + "\n"@));
    } else {
        assert(q[0] == notes[0]);
        assert(q.drop_first() =~= notes.drop_first().push(t));
        lemma_notes_text_snoc(notes.drop_first(), t);
        assert(notes_text(q) =~= notes_text(notes) + ("%% "@ + t + "\n"@));
    }
}

/// Law: a fill event overrides the carried fill mode for everything after
/// it.
pub proof fn lemma_fill_override(evs: Seq<EventView>, f0: bool, enabled: bool)
    ensures
        fill_after(evs.push(EventView::SetFill { enabled }), f0) == enabled,
{
    lemma_events_text_snoc(evs, Seq::empty(), f0, EventView::SetFill { enabled });
}

/// Law: the fill mode carries forward unchanged over any stretch of events
/// that contains no fill event.
pub proof fn lemma_fill_carries(evs: Seq<EventView>, f0: bool)
    requires
        forall|i: int| 0 <= i < evs.len() ==> !((#[trigger] evs[i]) is SetFill),
    ensures
        fill_after(evs, f0) == f0,
    decreases evs.len(),
{
    if evs.len() > 0 {
        assert(!(evs[0] is SetFill));
        assert(forall|i: int|
            0 <= i < evs.drop_first().len() ==> !((#[trigger] evs.drop_first()[i]) is SetFill));
        lemma_fill_carries(evs.drop_first(), next_fill(evs[0], f0));
    }
}

/// Appends the decimal text of a fixed-point value.
pub(crate) fn push_fixed(out: &mut String, m: i64)
    requires
        m > i64::MIN,
    ensures
        final(out)@ == old(out)@ + fmt_fixed(m as int),
{
    let s = fixed_to_string(m);
    out.append(s.as_str());
}

/// Builds the instruction group of one event, matching [`event_text`].
pub(crate) fn event_string(e: &DrawEvent, te: &Vec<String>, fill: bool) -> (s: String)
    requires
        ev_wf(e@, te@.len() as int),
    ensures
        s@ == event_text(e@, te.deep_view(), fill),
{
    let mut s = String::new();
    match *e {
        DrawEvent::SetColor { r, g, b, a: _ } => {
            push_fixed(&mut s, r.m);
            s.append(" ");
            push_fixed(&mut s, g.m);
            s.append(" ");
            push_fixed(&mut s, b.m);
            s.append(" setrgbcolor\n");
        },
        DrawEvent::Rect { llx, lly, urx, ury } => {
            s.append("newpath ");
            push_fixed(&mut s, llx.m);
            s.append(" ");
            push_fixed(&mut s, lly.m);
            s.append(" moveto\n");
            push_fixed(&mut s, llx.m);
            s.append(" ");
            push_fixed(&mut s, ury.m);
            s.append(" lineto\n");
            push_fixed(&mut s, urx.m);
            s.append(" ");
            push_fixed(&mut s, ury.m);
            s.append(" lineto\n");
            push_fixed(&mut s, urx.m);
            s.append(" ");
            push_fixed(&mut s, lly.m);
            s.append(" lineto\n");
            push_fixed(&mut s, llx.m);
            s.append(" ");
            push_fixed(&mut s, lly.m);
            s.append(" lineto\n");
            if fill {
                s.append("closepath fill\n");
            } else {
                s.append("stroke\n");
            }
        },
        DrawEvent::Line { llx, lly, urx, ury } => {
            s.append("newpath ");
            push_fixed(&mut s, llx.m);
            s.append(" ");
            push_fixed(&mut s, lly.m);
            s.append(" moveto\n");
            push_fixed(&mut s, urx.m);
            s.append(" ");
            push_fixed(&mut s, ury.m);
            s.append(" lineto\n");
            s.append("stroke\n");
        },
        DrawEvent::Circle { cx, cy, radius } => {
            s.append("newpath ");
            push_fixed(&mut s, cx.m);
            s.append(" ");
            push_fixed(&mut s, cy.m);
            s.append(" ");
            push_fixed(&mut s, radius.m);
            if fill {
                s.append(" 0 360 arc fill\n");
            } else {
                s.append(" 0 360 arc stroke\n");
            }
        },
        DrawEvent::Curve { x1, y1, x2, y2, x3, y3 } => {
            s.append("newpath ");
            push_fixed(&mut s, x1.m);
            s.append(" ");
            push_fixed(&mut s, y1.m);
            s.append(" moveto ");
            push_fixed(&mut s, x1.m);
            s.append(" ");
            push_fixed(&mut s, y1.m);
            s.append(" ");
            push_fixed(&mut s, x2.m);
            s.append(" ");
            push_fixed(&mut s, y2.m);
            s.append(" ");
            push_fixed(&mut s, x3.m);
            s.append(" ");
            push_fixed(&mut s, y3.m);
            s.append(" curveto stroke\n");
        },
        DrawEvent::SetFill { enabled: _ } => {},
        DrawEvent::Text { sref, x, y, angle } => {
            if angle.m != 0 {
                s.append("gsave ");
                push_fixed(&mut s, x.m);
                s.append(" ");
                push_fixed(&mut s, y.m);
                s.append(" translate ");
                push_fixed(&mut s, angle.m);
                s.append(" rotate 0 0 moveto\n");
                s.append("(");
                s.append(te[sref].as_str());
                s.append(") show grestore\n");
            } else {
                push_fixed(&mut s, x.m);
                s.append(" ");
                push_fixed(&mut s, y.m);
                s.append(" moveto\n");
                s.append("(");
                s.append(te[sref].as_str());
                s.append(") show\n");
            }
        },
        DrawEvent::Comment { sref } => {
            s.append("%% ");
            s.append(te[sref].as_str());
            s.append("\n");
        },
        DrawEvent::SetFont { scale, sref } => {
            s.append("/");
            s.append(te[sref].as_str());
            s.append(" findfont ");
            push_fixed(&mut s, scale.m);
            s.append(" scalefont setfont\n");
        },
        DrawEvent::RawMarkup { sref } => {
            s.append(te[sref].as_str());
            s.append("\n");
        },
    }
    proof {
        assert(s@ =~= event_text(e@, te.deep_view(), fill));
    }
    s
}

} // verus!
