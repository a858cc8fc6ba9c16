//! A note as PDF drawing content: one output page per note page, the
//! background as a fill, each stroke as a polyline, the title on the first
//! page, and a stub note from a PDF file's path.
//!
//! The output canvas has its origin at the bottom left with `y` growing
//! upward, the model at the top left with `y` growing downward. Output
//! coordinates are thousandths of a page unit, as the model's are. Shades
//! of gray are thousandths of white.

use crate::color::{color_of, lowercase_of, render_color, render_color_of, Rgb};
use crate::error::NoteError;
use crate::ident::is_random_uuid_text;
use crate::note::{
    Background, BackgroundView, Note, NoteView, Page, PageView, Point, Stroke, StrokeView,
};
use vstd::prelude::*;

verus! {

/// Fill of a blank page: white.
pub const BLANK_FILL: u16 = 1000;

/// Fill of a lined page: a light gray.
pub const LINED_FILL: u16 = 950;

/// Fill of a grid page: a lighter gray.
pub const GRID_FILL: u16 = 980;

/// Fill that stands in for a PDF background, which is not composited.
pub const PDF_PLACEHOLDER_FILL: u16 = 1000;

/// Shade of the title text: a dark gray.
pub const TITLE_GRAY: u16 = 200;

/// Size of the title text: 24 units.
pub const TITLE_SIZE: i32 = 24_000;

/// Distance of the title from the left and from the top edge: 50 units.
pub const TITLE_MARGIN: i32 = 50_000;

/// A position on the output canvas.
#[derive(Clone, Copy, Debug, PartialEq, Eq, Structural)]
pub struct PdfPoint {
    pub x: i64,
    pub y: i64,
}

/// A connected line through `points`, stroked in one colour and width.
#[derive(Debug, PartialEq, Eq)]
pub struct Polyline {
    pub color: Rgb,
    pub line_width: i32,
    pub points: Vec<PdfPoint>,
}

/// The typeface of the title.
#[derive(Clone, Copy, Debug, PartialEq, Eq, Structural)]
pub enum Font {
    TimesRoman,
}

/// A run of text whose baseline starts at (`x`, `y`).
#[derive(Debug, PartialEq, Eq)]
pub struct TitleText {
    pub text: String,
    pub font: Font,
    pub size: i32,
    pub gray: u16,
    pub x: i64,
    pub y: i64,
}

/// One output page, drawn in this order: the fill over the whole page, the
/// polylines, the title.
#[derive(Debug, PartialEq, Eq)]
pub struct PdfPage {
    pub width: i32,
    pub height: i32,
    pub fill_gray: u16,
    pub polylines: Vec<Polyline>,
    pub title: Option<TitleText>,
}

/// The pages of an output document, in order.
#[derive(Debug, PartialEq, Eq)]
pub struct PdfDocument {
    pub pages: Vec<PdfPage>,
}

/// The value of a [`Polyline`].
pub struct PolylineView {
    pub color: Rgb,
    pub line_width: i32,
    pub points: Seq<PdfPoint>,
}

/// The value of a [`TitleText`].
pub struct TitleTextView {
    pub text: Seq<char>,
    pub font: Font,
    pub size: i32,
    pub gray: u16,
    pub x: i64,
    pub y: i64,
}

/// The value of a [`PdfPage`].
pub struct PdfPageView {
    pub width: i32,
    pub height: i32,
    pub fill_gray: u16,
    pub polylines: Seq<PolylineView>,
    pub title: Option<TitleTextView>,
}

impl View for Polyline {
    type V = PolylineView;

    open spec fn view(&self) -> PolylineView {
        PolylineView { color: self.color, line_width: self.line_width, points: self.points@ }
    }
}

impl DeepView for Polyline {
    type V = PolylineView;

    open spec fn deep_view(&self) -> PolylineView {
        self@
    }
}

impl View for TitleText {
    type V = TitleTextView;

    open spec fn view(&self) -> TitleTextView {
        TitleTextView {
            text: self.text@,
            font: self.font,
            size: self.size,
            gray: self.gray,
            x: self.x,
            y: self.y,
        }
    }
}

impl View for PdfPage {
    type V = PdfPageView;

    open spec fn view(&self) -> PdfPageView {
        PdfPageView {
            width: self.width,
            height: self.height,
            fill_gray: self.fill_gray,
            polylines: self.polylines.deep_view(),
            title: match self.title {
                Some(t) => Some(t@),
                None => None,
            },
        }
    }
}

impl DeepView for PdfPage {
    type V = PdfPageView;

    open spec fn deep_view(&self) -> PdfPageView {
        self@
    }
}

impl View for PdfDocument {
    type V = Seq<PdfPageView>;

    open spec fn view(&self) -> Seq<PdfPageView> {
        self.pages.deep_view()
    }
}

/// The vertical flip between the two canvases: a model `y` measured down
/// from the top edge becomes a height above the bottom edge.
pub open spec fn output_y(page_height: i32, model_y: i32) -> int {
    page_height - model_y
}

/// Where a model point lies on the output canvas: `x` as it is, `y`
/// flipped.
pub open spec fn output_point(page_height: i32, p: Point) -> PdfPoint {
    PdfPoint { x: p.x as i64, y: output_y(page_height, p.y) as i64 }
}

/// The function that places every point of a page of the given height.
pub open spec fn placing(page_height: i32) -> spec_fn(Point) -> PdfPoint {
    |p: Point| output_point(page_height, p)
}

/// The colour a stroke is drawn in: what its colour string parses to, black
/// where it parses to nothing.
pub open spec fn stroke_color(color: Seq<char>) -> Rgb {
    render_color_of(color_of(color, lowercase_of(color)))
}

/// The polyline of a stroke on a page of the given height. The stroke's
/// pressure values have no part in it.
pub open spec fn polyline_of(stroke: StrokeView, page_height: i32) -> PolylineView {
    PolylineView {
        color: stroke_color(stroke.color),
        line_width: stroke.thickness,
        points: stroke.points.map_values(placing(page_height)),
    }
}

/// A stroke with at least one point.
pub open spec fn has_ink() -> spec_fn(StrokeView) -> bool {
    |s: StrokeView| s.points.len() > 0
}

/// The function that draws every stroke of a page of the given height.
pub open spec fn tracing(page_height: i32) -> spec_fn(StrokeView) -> PolylineView {
    |s: StrokeView| polyline_of(s, page_height)
}

/// The polylines of a page: one for each stroke that has a point, in the
/// order of the strokes.
pub open spec fn polylines_of(strokes: Seq<StrokeView>, page_height: i32) -> Seq<PolylineView> {
    strokes.filter(has_ink()).map_values(tracing(page_height))
}

/// The shade that fills a page with the given background.
pub open spec fn fill_of(background: BackgroundView) -> u16 {
    match background {
        BackgroundView::Blank => BLANK_FILL,
        BackgroundView::Lined { .. } => LINED_FILL,
        BackgroundView::Grid { .. } => GRID_FILL,
        BackgroundView::Pdf { .. } => PDF_PLACEHOLDER_FILL,
    }
}

/// The title as it is set on a page of the given height: in from the left
/// edge and down from the top edge by the title margin.
pub open spec fn title_on(text: Seq<char>, page_height: i32) -> TitleTextView {
    TitleTextView {
        text,
        font: Font::TimesRoman,
        size: TITLE_SIZE,
        gray: TITLE_GRAY,
        x: TITLE_MARGIN as i64,
        y: (page_height - TITLE_MARGIN) as i64,
    }
}

/// The output page of a note page, with the title where one is given.
pub open spec fn rendered_page(page: PageView, title: Option<Seq<char>>) -> PdfPageView {
    PdfPageView {
        width: page.width,
        height: page.height,
        fill_gray: fill_of(page.background),
        polylines: polylines_of(page.strokes, page.height),
        title: match title {
            Some(text) => Some(title_on(text, page.height)),
            None => None,
        },
    }
}

/// The title that the page at `index` of a note carries: the note's title
/// on the first page, none on the others.
pub open spec fn title_at(note: NoteView, index: int) -> Option<Seq<char>> {
    if index == 0 {
        Some(note.title)
    } else {
        None
    }
}

/// The output pages of a note: one for each of its pages, in order.
pub open spec fn rendered_note(note: NoteView) -> Seq<PdfPageView> {
    Seq::new(note.pages.len(), |i: int| rendered_page(note.pages[i], title_at(note, i)))
}

/// Flips a model `y` on a page of the given height into an output `y`.
pub fn to_output_y(page_height: i32, model_y: i32) -> (y: i64)
    ensures
        y == output_y(page_height, model_y),
{
    page_height as i64 - model_y as i64
}

/// The shade that fills a page with the given background. A PDF background
/// is not composited: its page gets a plain fill in its place.
pub fn background_fill(background: &Background) -> (gray: u16)
    ensures
        gray == fill_of(background@),
{
    match background {
        Background::Blank => BLANK_FILL,
        Background::Lined { .. } => LINED_FILL,
        Background::Grid { .. } => GRID_FILL,
        Background::Pdf { .. } => PDF_PLACEHOLDER_FILL,
    }
}

/// Draws one stroke: its colour resolved leniently, its thickness as the
/// line width, a connected line through all of its points.
pub fn stroke_polyline(stroke: &Stroke, page_height: i32) -> (line: Polyline)
    ensures
        line@ == polyline_of(stroke@, page_height),
{
    let mut points: Vec<PdfPoint> = Vec::new();
    let n: usize = stroke.points.len();
    let mut i: usize = 0;
    while i < n
        invariant
            i <= n,
            n == stroke.points@.len(),
            points@ == stroke.points@.take(i as int).map_values(placing(page_height)),
        decreases n - i,
    {
        let p: Point = stroke.points[i];
        points.push(PdfPoint { x: p.x as i64, y: to_output_y(page_height, p.y) });
        i += 1;
        assert(points@ =~= stroke.points@.take(i as int).map_values(placing(page_height)));
    }
    assert(stroke.points@.take(n as int) =~= stroke.points@);
    Polyline { color: render_color(stroke.color.as_str()), line_width: stroke.thickness, points }
}

/// Draws the strokes of a page, leaving out those without a point.
pub fn page_polylines(page: &Page) -> (lines: Vec<Polyline>)
    ensures
        lines.deep_view() == polylines_of(page@.strokes, page.height),
{
    let ghost strokes = page.strokes.deep_view();
    let mut lines: Vec<Polyline> = Vec::new();
    let n: usize = page.strokes.len();
    let mut i: usize = 0;
    proof {
        assert(strokes.take(0) =~= Seq::empty());
        reveal(Seq::filter);
        assert(lines.deep_view() =~= polylines_of(strokes.take(0), page.height));
    }
    while i < n
        invariant
            i <= n,
            n == page.strokes@.len(),
            strokes == page.strokes.deep_view(),
            lines.deep_view() == polylines_of(strokes.take(i as int), page.height),
        decreases n - i,
    {
        let stroke = &page.strokes[i];
        let ghost before = lines.deep_view();
        if stroke.points.len() > 0 {
            lines.push(stroke_polyline(stroke, page.height));
        }
        proof {
            let prefix = strokes.take(i as int);
            assert(strokes.take(i + 1) =~= prefix.push(stroke@));
            prefix.lemma_filter_push(stroke@, has_ink());
            if stroke@.points.len() > 0 {
                assert(lines.deep_view() =~= before.push(polyline_of(stroke@, page.height)));
                assert(prefix.filter(has_ink()).push(stroke@).map_values(tracing(page.height))
                    =~= before.push(polyline_of(stroke@, page.height)));
            }
        }
        i += 1;
    }
    assert(strokes.take(n as int) =~= strokes);
    lines
}

/// Draws one page of a note; `title` is set on it where one is given.
pub fn render_page(page: &Page, title: Option<&str>) -> (out: PdfPage)
    ensures
        out@ == rendered_page(
            page@,
            match title {
                Some(t) => Some(t@),
                None => None,
            },
        ),
{
    let title_text = match title {
        Some(text) => Some(
            TitleText {
                text: text.to_owned(),
                font: Font::TimesRoman,
                size: TITLE_SIZE,
                gray: TITLE_GRAY,
                x: TITLE_MARGIN as i64,
                y: page.height as i64 - TITLE_MARGIN as i64,
            },
        ),
        None => None,
    };
    PdfPage {
        width: page.width,
        height: page.height,
        fill_gray: background_fill(&page.background),
        polylines: page_polylines(page),
        title: title_text,
    }
}

/// Renders a note as PDF drawing content: one output page per page of the
/// note, in order, each of the note page's size, and the note's title on
/// the first page only. A stroke whose colour cannot be parsed is drawn in
/// black, so that every note renders.
pub fn export_to_pdf(note: &Note) -> (doc: PdfDocument)
    ensures
        doc@ == rendered_note(note@),
        doc@.len() == note@.pages.len(),
{
    let mut pages: Vec<PdfPage> = Vec::new();
    let n: usize = note.pages.len();
    let mut i: usize = 0;
    while i < n
        invariant
            i <= n,
            n == note.pages@.len(),
            pages.deep_view() == rendered_note(note@).take(i as int),
        decreases n - i,
    {
        let title = if i == 0 {
            Some(note.title.as_str())
        } else {
            None
        };
        let ghost before = pages.deep_view();
        let page = render_page(&note.pages[i], title);
        assert(page@ == rendered_note(note@)[i as int]) by {
            assert(note@.pages[i as int] == note.pages[i as int]@);
        }
        pages.push(page);
        i += 1;
        assert(pages.deep_view() =~= before.push(page@));
        assert(pages.deep_view() =~= rendered_note(note@).take(i as int));
    }
    assert(rendered_note(note@).take(n as int) =~= rendered_note(note@));
    PdfDocument { pages }
}

/// The title of a note imported from a file with the given stem: the stem,
/// or a fixed title where the path has none.
pub open spec fn import_title_of(stem: Option<Seq<char>>) -> Seq<char> {
    match stem {
        Some(s) => s,
        None => "Imported PDF"@,
    }
}

/// The stub note of an imported PDF: a newly created note whose one page
/// has the source file as its background, and no ink.
pub open spec fn imported_note(
    id: Seq<char>,
    title: Seq<char>,
    file_path: Seq<char>,
    now: u64,
) -> NoteView {
    NoteView::fresh(id, title, now).set_background(BackgroundView::Pdf { file_path })
}

/// Calls `Path::file_stem` of std on `path`: the last component's name
/// without its extension, `None` where the path ends in no file name. What
/// counts as a component differs between platforms, so nothing is claimed
/// of the result.
#[verifier::external_body]
fn path_file_stem(path: &str) -> (stem: Option<String>) {
    std::path::Path::new(path).file_stem().and_then(|s| s.to_str()).map(|s| s.to_owned())
}

/// The title of a note imported from a file with the given stem.
pub fn import_title(stem: Option<String>) -> (title: String)
    ensures
        title@ == import_title_of(
            match stem {
                Some(s) => Some(s@),
                None => None,
            },
        ),
{
    match stem {
        Some(s) => s,
        None => "Imported PDF".to_owned(),
    }
}

/// Imports a PDF as a stub note with the given title: a newly created note
/// whose one page has the file at `file_path` as its background. Nothing of
/// the file is read: no page size, no ink, no text.
pub fn import_with_title(title: String, file_path: &str) -> (note: Note)
    ensures
        note@ == imported_note(note@.id, title@, file_path@, note@.created_at),
        is_random_uuid_text(note@.id),
        note@.well_formed(),
{
    let mut note = Note::new(title);
    note.set_background(Background::Pdf { file_path: file_path.to_owned() });
    note
}

/// Imports a PDF as a stub note: the title is the stem of the file's name,
/// or `Imported PDF` where the path has none; the one page has the file at
/// `file_path` as its background. Nothing of the file is read, so a note
/// that was exported to it does not come back. The import always succeeds.
pub fn import_from_pdf(file_path: &str) -> (res: Result<Note, NoteError>)
    ensures
        res matches Ok(note) && {
            &&& note@ == imported_note(note@.id, note@.title, file_path@, note@.created_at)
            &&& is_random_uuid_text(note@.id)
            &&& note@.well_formed()
        },
{
    let title = import_title(path_file_stem(file_path));
    Ok(import_with_title(title, file_path))
}

/// The flip undoes itself, and it moves a point by as much up from the
/// bottom edge as the point lay down from the top edge.
pub proof fn lemma_flip_twice(page_height: i32, model_y: i32)
    ensures
        page_height - output_y(page_height, model_y) == model_y,
        output_y(page_height, 0) == page_height,
        output_y(page_height, page_height) == 0,
{
}

/// A point on the page stays on the page, and the flip turns the order of
/// any two heights around.
pub proof fn lemma_flip_stays_on_page(page_height: i32, a: i32, b: i32)
    requires
        0 <= a <= b <= page_height,
    ensures
        0 <= output_y(page_height, b) <= output_y(page_height, a) <= page_height,
{
}

/// The output has one page for each page of the note, of that page's size
/// and with the fill of its background; the title stands on the first
/// page and on no other.
pub proof fn lemma_rendered_pages(note: NoteView, i: int)
    requires
        0 <= i < note.pages.len(),
    ensures
        rendered_note(note).len() == note.pages.len(),
        rendered_note(note)[i].width == note.pages[i].width,
        rendered_note(note)[i].height == note.pages[i].height,
        rendered_note(note)[i].fill_gray == fill_of(note.pages[i].background),
        rendered_note(note)[i].title is Some <==> i == 0,
        i == 0 ==> rendered_note(note)[i].title == Some(title_on(note.title, note.pages[i].height)),
{
}

/// Only a blank page and the stand-in for a PDF background are filled
/// white; lined and grid pages get a shade of their own.
pub proof fn lemma_fill_tells_ruled_pages(background: BackgroundView)
    ensures
        fill_of(background) <= BLANK_FILL,
        fill_of(background) < BLANK_FILL <==> (background is Lined || background is Grid),
{
}

/// A page has at most one polyline per stroke, and exactly one per stroke
/// where every stroke has a point.
pub proof fn lemma_polyline_count(strokes: Seq<StrokeView>, page_height: i32)
    ensures
        polylines_of(strokes, page_height).len() <= strokes.len(),
        (forall|i: int| 0 <= i < strokes.len() ==> (#[trigger] strokes[i]).points.len() > 0)
            ==> polylines_of(strokes, page_height).len() == strokes.len(),
    decreases strokes.len(),
{
    reveal(Seq::filter);
    strokes.lemma_filter_len(has_ink());
    if strokes.len() > 0 {
        lemma_polyline_count(strokes.drop_last(), page_height);
        if forall|i: int| 0 <= i < strokes.len() ==> (#[trigger] strokes[i]).points.len() > 0 {
            assert forall|i: int| 0 <= i < strokes.drop_last().len() implies (
            #[trigger] strokes.drop_last()[i]).points.len() > 0 by {
                assert(strokes.drop_last()[i] == strokes[i]);
            }
            assert(strokes.last() == strokes[strokes.len() - 1]);
        }
    }
}

/// A polyline has one point for each point of its stroke, in the same
/// order, and takes its width from the stroke's thickness.
pub proof fn lemma_polyline_points(stroke: StrokeView, page_height: i32, i: int)
    requires
        0 <= i < stroke.points.len(),
    ensures
        polyline_of(stroke, page_height).points.len() == stroke.points.len(),
        polyline_of(stroke, page_height).points[i] == output_point(page_height, stroke.points[i]),
        polyline_of(stroke, page_height).points[i].x == stroke.points[i].x,
        polyline_of(stroke, page_height).points[i].y == page_height - stroke.points[i].y,
        polyline_of(stroke, page_height).line_width == stroke.thickness,
{
}

} // verus!
