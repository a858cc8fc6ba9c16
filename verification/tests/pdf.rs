use speedynote::color::Rgb;
use speedynote::note::{Background, Note, Page, Point, Stroke};
use speedynote::pdf::{
    background_fill, export_to_pdf, import_from_pdf, import_title, import_with_title,
    page_polylines, render_page, stroke_polyline, to_output_y, Font, PdfPoint, Polyline,
};

fn stroke(color: &str, points: Vec<(i32, i32)>) -> Stroke {
    let n = points.len();
    Stroke {
        points: points
            .into_iter()
            .enumerate()
            .map(|(i, (x, y))| Point { x, y, timestamp: i as u64 })
            .collect(),
        color: color.to_string(),
        thickness: 2_000,
        pressure: vec![1_000; n],
    }
}

#[test]
fn flip_measures_from_the_bottom_edge() {
    assert_eq!(to_output_y(1_000_000, 0), 1_000_000);
    assert_eq!(to_output_y(1_000_000, 1_000_000), 0);
    assert_eq!(to_output_y(1_000_000, 10_000), 990_000);
    assert_eq!(to_output_y(1_000_000, -5_000), 1_005_000);
    assert_eq!(to_output_y(500, 700), -200);
}

#[test]
fn flip_never_overflows() {
    assert_eq!(to_output_y(i32::MAX, i32::MIN), i32::MAX as i64 - i32::MIN as i64);
    assert_eq!(to_output_y(i32::MIN, i32::MAX), i32::MIN as i64 - i32::MAX as i64);
}

#[test]
fn flip_twice_gives_the_point_back() {
    for h in [0, 1, 1_000_000, 297_000] {
        for y in [0, 1, 250, 1_000_000] {
            let once = to_output_y(h, y);
            assert_eq!(h as i64 - once, y as i64);
        }
    }
}

#[test]
fn fills_by_background() {
    assert_eq!(background_fill(&Background::Blank), 1000);
    assert_eq!(background_fill(&Background::Lined { spacing: 20_000 }), 950);
    assert_eq!(background_fill(&Background::Grid { spacing: 20_000 }), 980);
    assert_eq!(background_fill(&Background::Pdf { file_path: "a.pdf".to_string() }), 1000);
}

#[test]
fn polyline_follows_the_stroke() {
    let s = stroke("#FF0000", vec![(0, 0), (10_000, 10_000), (20_000, 5_000)]);
    let line = stroke_polyline(&s, 1_000_000);
    assert_eq!(
        line,
        Polyline {
            color: Rgb { r: 255, g: 0, b: 0 },
            line_width: 2_000,
            points: vec![
                PdfPoint { x: 0, y: 1_000_000 },
                PdfPoint { x: 10_000, y: 990_000 },
                PdfPoint { x: 20_000, y: 995_000 },
            ],
        }
    );
}

#[test]
fn bad_color_is_drawn_in_black() {
    let s = stroke("not-a-color", vec![(1, 2)]);
    let line = stroke_polyline(&s, 100);
    assert_eq!(line.color, Rgb { r: 0, g: 0, b: 0 });
    assert_eq!(line.points, vec![PdfPoint { x: 1, y: 98 }]);
    let named = stroke("Green", vec![(1, 2)]);
    assert_eq!(stroke_polyline(&named, 100).color, Rgb { r: 0, g: 255, b: 0 });
}

#[test]
fn pressure_has_no_part_in_the_polyline() {
    let mut a = stroke("blue", vec![(0, 0), (5, 5)]);
    let mut b = stroke("blue", vec![(0, 0), (5, 5)]);
    a.pressure = vec![100, 900];
    b.pressure = vec![];
    assert_eq!(stroke_polyline(&a, 50), stroke_polyline(&b, 50));
    assert_eq!(stroke_polyline(&a, 50).line_width, 2_000);
}

#[test]
fn strokes_without_points_are_left_out() {
    let page = Page {
        strokes: vec![
            stroke("red", vec![]),
            stroke("red", vec![(1, 1)]),
            stroke("blue", vec![]),
            stroke("blue", vec![(2, 2), (3, 3)]),
        ],
        background: Background::Blank,
        width: 100,
        height: 10,
    };
    let lines = page_polylines(&page);
    assert_eq!(lines.len(), 2);
    assert_eq!(lines[0].color, Rgb { r: 255, g: 0, b: 0 });
    assert_eq!(lines[0].points, vec![PdfPoint { x: 1, y: 9 }]);
    assert_eq!(lines[1].color, Rgb { r: 0, g: 0, b: 255 });
    assert_eq!(lines[1].points, vec![PdfPoint { x: 2, y: 8 }, PdfPoint { x: 3, y: 7 }]);
}

#[test]
fn title_is_set_at_a_fixed_place() {
    let page = Page::new(Background::Blank);
    let out = render_page(&page, Some("Physics"));
    let title = out.title.unwrap();
    assert_eq!(title.text, "Physics");
    assert_eq!(title.font, Font::TimesRoman);
    assert_eq!(title.size, 24_000);
    assert_eq!(title.gray, 200);
    assert_eq!(title.x, 50_000);
    assert_eq!(title.y, 950_000);
    assert!(render_page(&page, None).title.is_none());
}

#[test]
fn title_place_never_overflows() {
    let page = Page { strokes: vec![], background: Background::Blank, width: 1, height: i32::MIN };
    let out = render_page(&page, Some("t"));
    assert_eq!(out.title.unwrap().y, i32::MIN as i64 - 50_000);
}

#[test]
fn export_two_page_note() {
    let mut note = Note::with_identity("n".to_string(), "Physics".to_string(), 1);
    note.set_background(Background::Lined { spacing: 20_000 });
    note.add_stroke_at(stroke("#000000", vec![(0, 0), (10_000, 10_000)]), 2);
    note.add_page(Background::Blank);
    let doc = export_to_pdf(&note);
    assert_eq!(doc.pages.len(), 2);
    assert_eq!(doc.pages[0].width, 800_000);
    assert_eq!(doc.pages[0].height, 1_000_000);
    assert_eq!(doc.pages[0].fill_gray, 950);
    assert_eq!(doc.pages[0].polylines.len(), 1);
    assert_eq!(
        doc.pages[0].polylines[0].points,
        vec![PdfPoint { x: 0, y: 1_000_000 }, PdfPoint { x: 10_000, y: 990_000 }]
    );
    assert_eq!(doc.pages[0].title.as_ref().unwrap().text, "Physics");
    assert_eq!(doc.pages[1].fill_gray, 1000);
    assert!(doc.pages[1].polylines.is_empty());
    assert!(doc.pages[1].title.is_none());
}

#[test]
fn export_keeps_each_page_size() {
    let mut note = Note::with_identity("n".to_string(), "t".to_string(), 1);
    note.pages[0].width = 210_000;
    note.pages[0].height = 297_000;
    note.pages[0].strokes.push(stroke("red", vec![(0, 297_000)]));
    note.add_page(Background::Grid { spacing: 5_000 });
    let doc = export_to_pdf(&note);
    assert_eq!((doc.pages[0].width, doc.pages[0].height), (210_000, 297_000));
    assert_eq!(doc.pages[0].polylines[0].points, vec![PdfPoint { x: 0, y: 0 }]);
    assert_eq!(doc.pages[0].title.as_ref().unwrap().y, 247_000);
    assert_eq!((doc.pages[1].width, doc.pages[1].height), (800_000, 1_000_000));
    assert_eq!(doc.pages[1].fill_gray, 980);
}

#[test]
fn export_of_a_note_without_pages_is_empty() {
    let mut note = Note::with_identity("n".to_string(), "t".to_string(), 1);
    note.pages.clear();
    assert!(export_to_pdf(&note).pages.is_empty());
}

#[test]
fn import_report_pdf() {
    let note = import_from_pdf("report.pdf").unwrap();
    assert_eq!(note.title, "report");
    assert_eq!(note.pages.len(), 1);
    assert_eq!(
        note.pages[0].background,
        Background::Pdf { file_path: "report.pdf".to_string() }
    );
    assert!(note.pages[0].strokes.is_empty());
    assert_eq!(note.current_page, 0);
    assert_eq!(note.created_at, note.updated_at);
    assert_eq!(note.id.len(), 36);
}

#[test]
fn import_takes_the_stem_of_the_last_component() {
    let note = import_from_pdf("docs/2024/thesis.final.pdf").unwrap();
    assert_eq!(note.title, "thesis.final");
    assert_eq!(
        note.pages[0].background,
        Background::Pdf { file_path: "docs/2024/thesis.final.pdf".to_string() }
    );
}

#[test]
fn import_without_a_file_name_gets_the_fixed_title() {
    assert_eq!(import_from_pdf("").unwrap().title, "Imported PDF");
    assert_eq!(import_from_pdf("/").unwrap().title, "Imported PDF");
    let note = import_from_pdf("..").unwrap();
    assert_eq!(note.title, "Imported PDF");
    assert_eq!(note.pages[0].background, Background::Pdf { file_path: "..".to_string() });
}

#[test]
fn import_title_rule() {
    assert_eq!(import_title(Some("report".to_string())), "report");
    assert_eq!(import_title(Some(String::new())), "");
    assert_eq!(import_title(None), "Imported PDF");
}

#[test]
fn import_with_title_sets_the_background() {
    let note = import_with_title("My title".to_string(), "a/b.pdf");
    assert_eq!(note.title, "My title");
    assert_eq!(note.pages.len(), 1);
    assert_eq!(note.pages[0].background, Background::Pdf { file_path: "a/b.pdf".to_string() });
    assert_eq!(note.pages[0].width, 800_000);
    assert_eq!(note.pages[0].height, 1_000_000);
}

#[test]
fn export_then_import_does_not_bring_the_note_back() {
    let mut note = Note::with_identity("n".to_string(), "Physics".to_string(), 1);
    note.add_stroke_at(stroke("red", vec![(1, 1)]), 2);
    let _ = export_to_pdf(&note);
    let back = import_from_pdf("Physics.pdf").unwrap();
    assert_eq!(back.title, "Physics");
    assert!(back.pages[0].strokes.is_empty());
    assert_ne!(back.id, note.id);
}
