use pstools::event::DrawEvent;
use pstools::fixed::Fixed;
use pstools::pstools_version;
use pstools::PSTool;

fn f(v: i64) -> Fixed {
    Fixed::from_int(v)
}

#[test]
fn version_string() {
    assert_eq!(pstools_version(), "PSTools version 0.1");
}

#[test]
fn new_tool_is_empty() {
    let t = PSTool::new();
    assert_eq!(t.len(), 0);
}

#[test]
fn events_are_recorded_in_order() {
    let mut t = PSTool::new();
    t.add_box(f(1), f(2), f(3), f(4));
    t.add_line(f(5), f(6), f(7), f(8));
    t.set_fill(true);
    assert_eq!(t.len(), 3);
    assert_eq!(
        t.event(0),
        DrawEvent::Rect {
            llx: Fixed::from_milli(1000),
            lly: Fixed::from_milli(2000),
            urx: Fixed::from_milli(3000),
            ury: Fixed::from_milli(4000),
        }
    );
    assert_eq!(
        t.event(1),
        DrawEvent::Line {
            llx: Fixed::from_milli(5000),
            lly: Fixed::from_milli(6000),
            urx: Fixed::from_milli(7000),
            ury: Fixed::from_milli(8000),
        }
    );
    assert_eq!(t.event(2), DrawEvent::SetFill { enabled: true });
}

#[test]
fn scale_is_not_retroactive() {
    // Events appended before the scale change keep their stored coordinates.
    let mut t = PSTool::new();
    t.add_box(f(1), f(1), f(2), f(2));
    t.set_scale(Fixed::from_milli(2000));
    t.add_box(f(1), f(1), f(2), f(2));
    assert_eq!(
        t.event(0),
        DrawEvent::Rect {
            llx: Fixed::from_milli(1000),
            lly: Fixed::from_milli(1000),
            urx: Fixed::from_milli(2000),
            ury: Fixed::from_milli(2000),
        }
    );
    assert_eq!(
        t.event(1),
        DrawEvent::Rect {
            llx: Fixed::from_milli(2000),
            lly: Fixed::from_milli(2000),
            urx: Fixed::from_milli(4000),
            ury: Fixed::from_milli(4000),
        }
    );
}

#[test]
fn scale_applies_to_circles_and_text() {
    let mut t = PSTool::new();
    t.set_scale(Fixed::from_milli(500));
    t.add_circle(f(10), f(20), f(4));
    t.add_text_rotated(f(2), f(6), f(90), "hi".to_string());
    assert_eq!(
        t.event(0),
        DrawEvent::Circle {
            cx: Fixed::from_milli(5000),
            cy: Fixed::from_milli(10000),
            radius: Fixed::from_milli(2000),
        }
    );
    // The rotation angle is stored unscaled.
    assert_eq!(
        t.event(1),
        DrawEvent::Text {
            sref: 0,
            x: Fixed::from_milli(1000),
            y: Fixed::from_milli(3000),
            angle: Fixed::from_milli(90000),
        }
    );
}

#[test]
fn inference_ignores_text_and_curves() {
    // A scene with only a text event yields the zero box expanded by the
    // border, regardless of the text's position.
    let mut t = PSTool::new();
    t.add_text(f(100), f(200), "far away".to_string());
    t.add_curve(f(1), f(2), f(3), f(4), f(5), f(6));
    t.set_border(f(2));
    let (llx, lly, urx, ury) = t.bbox();
    assert_eq!(llx.milli(), -2000);
    assert_eq!(lly.milli(), -2000);
    assert_eq!(urx.milli(), 2000);
    assert_eq!(ury.milli(), 2000);
}

#[test]
fn inference_covers_boxes_and_lines() {
    let mut t = PSTool::new();
    t.add_box(f(5), f(5), f(20), f(30));
    t.add_line(f(-3), f(2), f(8), f(40));
    let (llx, lly, urx, ury) = t.bbox();
    assert_eq!(llx.milli(), -3000);
    assert_eq!(lly.milli(), 2000);
    assert_eq!(urx.milli(), 20000);
    assert_eq!(ury.milli(), 40000);
}

#[test]
fn inference_uses_circle_fields_as_stored() {
    // A circle enters the scan as its stored record: the pair (cx, cy) and
    // the pair (radius, 0).
    let mut t = PSTool::new();
    t.add_circle(f(5), f(5), f(2));
    let (llx, lly, urx, ury) = t.bbox();
    assert_eq!(llx.milli(), 2000);
    assert_eq!(lly.milli(), 0);
    assert_eq!(urx.milli(), 5000);
    assert_eq!(ury.milli(), 5000);
}

#[test]
fn explicit_bounds_bypass_inference_and_border() {
    let mut t = PSTool::new();
    t.add_box(f(0), f(0), f(100), f(100));
    t.set_border(f(10));
    t.set_bounds(f(1), f(2), f(3), f(4));
    let (llx, lly, urx, ury) = t.bbox();
    assert_eq!(llx.milli(), 1000);
    assert_eq!(lly.milli(), 2000);
    assert_eq!(urx.milli(), 3000);
    assert_eq!(ury.milli(), 4000);
}

#[test]
fn text_cursor_advances_by_line_spacing() {
    let mut t = PSTool::new();
    t.set_text_ln(f(0), f(100));
    t.set_font(f(20), "Courier".to_string());
    t.add_text_ln("first".to_string());
    t.add_text_ln("second".to_string());
    // The font event is first; the two text lines follow, the second one a
    // line spacing (1.1 times the font size) lower.
    assert_eq!(
        t.event(1),
        DrawEvent::Text {
            sref: 1,
            x: Fixed::from_milli(0),
            y: Fixed::from_milli(100000),
            angle: Fixed::from_milli(0),
        }
    );
    assert_eq!(
        t.event(2),
        DrawEvent::Text {
            sref: 2,
            x: Fixed::from_milli(0),
            y: Fixed::from_milli(78000),
            angle: Fixed::from_milli(0),
        }
    );
}

#[test]
fn default_line_spacing_is_twelve_points() {
    let mut t = PSTool::new();
    t.set_text_ln(f(0), f(100));
    t.add_text_ln("first".to_string());
    t.add_text_ln("second".to_string());
    assert_eq!(
        t.event(1),
        DrawEvent::Text {
            sref: 1,
            x: Fixed::from_milli(0),
            y: Fixed::from_milli(88000),
            angle: Fixed::from_milli(0),
        }
    );
}

#[test]
fn chart_constant_data_sits_on_bottom_edge() {
    // All samples equal and the range taken from the data: a zero range
    // places every sample on the rectangle's bottom edge.
    let mut t = PSTool::new();
    let data = vec![f(7), f(7), f(7)];
    t.chart(data, f(0), f(0), f(0), f(0), f(10), f(10));
    assert_eq!(t.len(), 3);
    assert_eq!(
        t.event(1),
        DrawEvent::Line {
            llx: Fixed::from_milli(0),
            lly: Fixed::from_milli(0),
            urx: Fixed::from_milli(3333),
            ury: Fixed::from_milli(0),
        }
    );
}

#[test]
fn chart_derives_range_from_data_when_bounds_equal() {
    // chart([0,1,2], 0, 0, 0,0,10,10): range [0,2] from the data; one box
    // event, then exactly len-1 line events.
    let mut t = PSTool::new();
    let data = vec![f(0), f(1), f(2)];
    t.chart(data, f(0), f(0), f(0), f(0), f(10), f(10));
    assert_eq!(t.len(), 3);
    assert_eq!(
        t.event(0),
        DrawEvent::Rect {
            llx: Fixed::from_milli(0),
            lly: Fixed::from_milli(0),
            urx: Fixed::from_milli(10000),
            ury: Fixed::from_milli(10000),
        }
    );
    assert_eq!(
        t.event(1),
        DrawEvent::Line {
            llx: Fixed::from_milli(0),
            lly: Fixed::from_milli(0),
            urx: Fixed::from_milli(3333),
            ury: Fixed::from_milli(5000),
        }
    );
    assert_eq!(
        t.event(2),
        DrawEvent::Line {
            llx: Fixed::from_milli(3333),
            lly: Fixed::from_milli(5000),
            urx: Fixed::from_milli(6666),
            ury: Fixed::from_milli(10000),
        }
    );
}

#[test]
fn chart_clamps_out_of_range_samples() {
    let mut t = PSTool::new();
    let data = vec![f(-5), f(5), f(15)];
    t.chart(data, f(0), f(10), f(0), f(0), f(10), f(10));
    // Sample below the range sits on the bottom edge, sample above on the top.
    assert_eq!(
        t.event(1),
        DrawEvent::Line {
            llx: Fixed::from_milli(0),
            lly: Fixed::from_milli(0),
            urx: Fixed::from_milli(3333),
            ury: Fixed::from_milli(5000),
        }
    );
    assert_eq!(
        t.event(2),
        DrawEvent::Line {
            llx: Fixed::from_milli(3333),
            lly: Fixed::from_milli(5000),
            urx: Fixed::from_milli(6666),
            ury: Fixed::from_milli(10000),
        }
    );
}

#[test]
fn chart_degenerate_inputs_append_nothing() {
    let mut t = PSTool::new();
    let empty: Vec<Fixed> = Vec::new();
    t.chart(empty, f(0), f(10), f(0), f(0), f(10), f(10));
    assert_eq!(t.len(), 0);
    t.chart(vec![f(1)], f(0), f(10), f(0), f(0), f(0), f(10));
    assert_eq!(t.len(), 0);
    t.chart(vec![f(1), f(2)], f(0), f(10), f(0), f(5), f(10), f(5));
    assert_eq!(t.len(), 0);
}

#[test]
fn demo_builds_a_scene_with_explicit_bounds() {
    let mut t = PSTool::new();
    t.demo();
    assert!(t.len() > 0);
    let (llx, lly, urx, ury) = t.bbox();
    assert_eq!(llx.milli(), -5000);
    assert_eq!(lly.milli(), -10000);
    assert_eq!(urx.milli(), 210000);
    assert_eq!(ury.milli(), 208000);
}
