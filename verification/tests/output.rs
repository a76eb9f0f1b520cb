use pstools::event::DrawEvent;
use pstools::fixed::Fixed;
use pstools::PSTool;

fn f(v: i64) -> Fixed {
    Fixed::from_int(v)
}

#[test]
fn document_frame() {
    let mut t = PSTool::new();
    t.add_box(f(0), f(0), f(10), f(10));
    let out = t.generate();
    assert!(out.starts_with("%!PS-Adobe-3.0 EPSF-3.0\n%%DocumentData: Clean7Bit\n"));
    assert!(out.contains("%%BoundingBox: 0 0 10 10\n"));
    assert!(out.contains("%%LanguageLevel: 2\n%%Pages: 1\n%%Page: 1 1\n"));
    assert!(out.contains("/Courier findfont 15 scalefont setfont\n"));
    assert!(out.ends_with("%%EOF\n\n"));
}

#[test]
fn box_group_text() {
    let mut t = PSTool::new();
    t.add_box(f(1), f(2), f(3), f(4));
    let out = t.generate();
    let group = "newpath 1 2 moveto\n1 4 lineto\n3 4 lineto\n3 2 lineto\n1 2 lineto\nstroke\n";
    assert!(out.contains(group));
}

#[test]
fn fill_state_carries_over() {
    // The first box serializes filled, the second outlined.
    let mut t = PSTool::new();
    t.set_fill(true);
    t.add_box(f(0), f(0), f(1), f(1));
    t.set_fill(false);
    t.add_box(f(2), f(2), f(3), f(3));
    let out = t.generate();
    assert_eq!(out.matches("closepath fill\n").count(), 1);
    assert_eq!(out.matches("stroke\n").count(), 1);
    let filled = out.find("closepath fill").unwrap();
    let outlined = out.find("stroke").unwrap();
    assert!(filled < outlined);
}

#[test]
fn fill_state_applies_to_circles() {
    let mut t = PSTool::new();
    t.set_fill(true);
    t.add_circle(f(5), f(5), f(2));
    let out = t.generate();
    assert!(out.contains("newpath 5 5 2 0 360 arc fill\n"));
}

#[test]
fn lines_are_always_outlined() {
    let mut t = PSTool::new();
    t.set_fill(true);
    t.add_line(f(0), f(0), f(4), f(4));
    let out = t.generate();
    assert!(out.contains("newpath 0 0 moveto\n4 4 lineto\nstroke\n"));
}

#[test]
fn curve_reuses_first_control_point_as_start() {
    let mut t = PSTool::new();
    t.add_curve(f(1), f(2), f(3), f(4), f(5), f(6));
    let out = t.generate();
    assert!(out.contains("newpath 1 2 moveto 1 2 3 4 5 6 curveto stroke\n"));
}

#[test]
fn color_and_font_instructions() {
    let mut t = PSTool::new();
    t.set_color(
        Fixed::from_milli(300),
        Fixed::from_milli(400),
        Fixed::from_milli(200),
        Fixed::from_milli(1000),
    );
    t.set_font(f(20), "Times-Roman".to_string());
    t.add_box(f(0), f(0), f(1), f(1));
    let out = t.generate();
    assert!(out.contains("0.3 0.4 0.2 setrgbcolor\n"));
    assert!(out.contains("/Times-Roman findfont 20 scalefont setfont\n"));
}

#[test]
fn text_plain_and_rotated() {
    let mut t = PSTool::new();
    t.add_text(f(10), f(20), "plain words".to_string());
    t.add_text_rotated(f(15), f(60), f(90), "tilted".to_string());
    let out = t.generate();
    assert!(out.contains("10 20 moveto\n(plain words) show\n"));
    assert!(out.contains("gsave 15 60 translate 90 rotate 0 0 moveto\n(tilted) show grestore\n"));
}

#[test]
fn comments_and_raw_markup_in_stream() {
    let mut t = PSTool::new();
    t.add_comment("a remark".to_string());
    t.add_postscript("gsave 1 1 translate".to_string());
    let out = t.generate();
    assert!(out.contains("%% a remark\n"));
    assert!(out.contains("gsave 1 1 translate\n"));
}

#[test]
fn notes_precede_event_output() {
    let mut t = PSTool::new();
    t.add_note("configuration: demo".to_string());
    t.add_box(f(0), f(0), f(1), f(1));
    let out = t.generate();
    let note = out.find("%% configuration: demo\n").unwrap();
    let font = out.find("/Courier findfont").unwrap();
    let event = out.find("newpath").unwrap();
    assert!(note < font);
    assert!(font < event);
}

#[test]
fn parse_then_generate_equals_direct_calls() {
    // Round trip: a parsed `box 1 2 3 4` line and the direct add_box call
    // produce identical documents.
    let mut parsed = PSTool::new();
    parsed.parse("box 1 2 3 4\n");
    let mut direct = PSTool::new();
    direct.add_box(f(1), f(2), f(3), f(4));
    assert_eq!(parsed.len(), 1);
    assert_eq!(parsed.generate(), direct.generate());
}

#[test]
fn parse_recognizes_every_grammar() {
    let mut t = PSTool::new();
    let input = "box 1 2 3 4\nline 5 6 7 8\ncircle 9 10 11\ncolor 0.5 0.25 1 \nfill 1\ncurve 1 2 3 4 5 6\nfont 12 Helvetica-Bold\ntext 3 4 hello there\ncomment noted\n";
    t.parse(input);
    assert_eq!(t.len(), 9);
    assert_eq!(t.event(3), DrawEvent::SetColor {
        r: Fixed::from_milli(500),
        g: Fixed::from_milli(250),
        b: Fixed::from_milli(1000),
        a: Fixed::from_milli(1000),
    });
    assert_eq!(t.event(4), DrawEvent::SetFill { enabled: true });
    let out = t.generate();
    assert!(out.contains("3 4 moveto\n(hello there) show\n"));
    assert!(out.contains("/Helvetica-Bold findfont 12 scalefont setfont\n"));
    assert!(out.contains("%% noted\n"));
}

#[test]
fn parse_skips_unrecognized_lines() {
    let mut t = PSTool::new();
    t.parse("# a comment line\n\n   \nnonsense here\nboxes 1 2 3 4\nbox 1 2 3\nbox 1 2 3 4\n");
    // Only the final well-formed box line matches a grammar.
    assert_eq!(t.len(), 1);
}

#[test]
fn parse_applies_current_scale() {
    let mut t = PSTool::new();
    t.set_scale(Fixed::from_milli(2000));
    t.parse("box 1 1 2 2");
    assert_eq!(
        t.event(0),
        DrawEvent::Rect {
            llx: Fixed::from_milli(2000),
            lly: Fixed::from_milli(2000),
            urx: Fixed::from_milli(4000),
            ury: Fixed::from_milli(4000),
        }
    );
}

#[test]
fn parse_number_forms() {
    let mut t = PSTool::new();
    t.parse("box -1.5 +2 .5 3.\nbox 0.0001 1.25 2.75 4");
    assert_eq!(
        t.event(0),
        DrawEvent::Rect {
            llx: Fixed::from_milli(-1500),
            lly: Fixed::from_milli(2000),
            urx: Fixed::from_milli(500),
            ury: Fixed::from_milli(3000),
        }
    );
    // Fraction digits beyond the thousandths are read but ignored.
    assert_eq!(
        t.event(1),
        DrawEvent::Rect {
            llx: Fixed::from_milli(0),
            lly: Fixed::from_milli(1250),
            urx: Fixed::from_milli(2750),
            ury: Fixed::from_milli(4000),
        }
    );
}

#[test]
fn parse_rejects_out_of_range_numbers() {
    let mut t = PSTool::new();
    t.parse("box 2000000 0 0 0\nbox 1000000 0 0 0");
    // The first line exceeds the accepted coordinate range and is skipped;
    // the second sits exactly on the limit.
    assert_eq!(t.len(), 1);
}

#[test]
fn parse_fill_zero_and_nonzero() {
    let mut t = PSTool::new();
    t.parse("fill 0\nfill 02\nfill -1\nfill x");
    assert_eq!(t.len(), 2);
    assert_eq!(t.event(0), DrawEvent::SetFill { enabled: false });
    assert_eq!(t.event(1), DrawEvent::SetFill { enabled: true });
}

#[test]
fn parse_windows_line_endings() {
    let mut t = PSTool::new();
    t.parse("box 1 2 3 4\r\nline 5 6 7 8\r\n");
    assert_eq!(t.len(), 2);
}

#[test]
fn empty_scene_still_frames_document() {
    let t = PSTool::new();
    assert_eq!(t.len(), 0);
    let out = t.generate();
    assert!(out.contains("%%BoundingBox: 0 0 0 0\n"));
    assert!(out.ends_with("%%EOF\n\n"));
}
