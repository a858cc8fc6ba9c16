//! The document model: a note is a non-empty sequence of pages, each page a
//! background and an append-only sequence of ink strokes.
//!
//! Lengths, coordinates, thickness and pressure are whole numbers of
//! thousandths of a page unit.

use crate::clock::unix_seconds_now;
use crate::error::{ErrorKind, NoteError, NoteErrorView};
use crate::ident::{fresh_id, is_random_uuid_text};
use vstd::prelude::*;

verus! {

/// Thousandths in one page unit.
pub const UNIT: i32 = 1000;

/// Width of a newly made page: 800 units.
pub const DEFAULT_PAGE_WIDTH: i32 = 800_000;

/// Height of a newly made page: 1000 units.
pub const DEFAULT_PAGE_HEIGHT: i32 = 1_000_000;

/// One sample of a pen gesture. The origin is the page's top left corner
/// and `y` grows downward; `timestamp` is in milliseconds.
#[derive(Clone, Copy, Debug, PartialEq, Eq, Structural)]
pub struct Point {
    pub x: i32,
    pub y: i32,
    pub timestamp: u64,
}

/// One continuous pen gesture. `pressure` is meant to hold one value per
/// point, but a stroke whose two lengths differ is accepted as it is.
#[derive(Debug, PartialEq, Eq)]
pub struct Stroke {
    pub points: Vec<Point>,
    pub color: String,
    pub thickness: i32,
    pub pressure: Vec<i32>,
}

/// What lies behind a page's ink.
#[derive(Debug, PartialEq, Eq)]
pub enum Background {
    Blank,
    Lined { spacing: i32 },
    Grid { spacing: i32 },
    Pdf { file_path: String },
}

#[derive(Debug, PartialEq, Eq)]
pub struct Page {
    pub strokes: Vec<Stroke>,
    pub background: Background,
    pub width: i32,
    pub height: i32,
}

#[derive(Debug, PartialEq, Eq)]
pub struct Note {
    pub id: String,
    pub title: String,
    pub pages: Vec<Page>,
    pub created_at: u64,
    pub updated_at: u64,
    pub current_page: usize,
}

/// The value of a [`Stroke`].
pub struct StrokeView {
    pub points: Seq<Point>,
    pub color: Seq<char>,
    pub thickness: i32,
    pub pressure: Seq<i32>,
}

/// The value of a [`Background`].
pub enum BackgroundView {
    Blank,
    Lined { spacing: i32 },
    Grid { spacing: i32 },
    Pdf { file_path: Seq<char> },
}

/// The value of a [`Page`].
pub struct PageView {
    pub strokes: Seq<StrokeView>,
    pub background: BackgroundView,
    pub width: i32,
    pub height: i32,
}

/// The value of a [`Note`].
pub struct NoteView {
    pub id: Seq<char>,
    pub title: Seq<char>,
    pub pages: Seq<PageView>,
    pub created_at: u64,
    pub updated_at: u64,
    pub current_page: nat,
}

impl View for Stroke {
    type V = StrokeView;

    open spec fn view(&self) -> StrokeView {
        StrokeView {
            points: self.points@,
            color: self.color@,
            thickness: self.thickness,
            pressure: self.pressure@,
        }
    }
}

impl DeepView for Stroke {
    type V = StrokeView;

    open spec fn deep_view(&self) -> StrokeView {
        self@
    }
}

impl View for Background {
    type V = BackgroundView;

    open spec fn view(&self) -> BackgroundView {
        match *self {
            Background::Blank => BackgroundView::Blank,
            Background::Lined { spacing } => BackgroundView::Lined { spacing },
            Background::Grid { spacing } => BackgroundView::Grid { spacing },
            Background::Pdf { file_path } => BackgroundView::Pdf { file_path: file_path@ },
        }
    }
}

impl View for Page {
    type V = PageView;

    open spec fn view(&self) -> PageView {
        PageView {
            strokes: self.strokes.deep_view(),
            background: self.background@,
            width: self.width,
            height: self.height,
        }
    }
}

impl DeepView for Page {
    type V = PageView;

    open spec fn deep_view(&self) -> PageView {
        self@
    }
}

impl View for Note {
    type V = NoteView;

    open spec fn view(&self) -> NoteView {
        NoteView {
            id: self.id@,
            title: self.title@,
            pages: self.pages.deep_view(),
            created_at: self.created_at,
            updated_at: self.updated_at,
            current_page: self.current_page as nat,
        }
    }
}

impl DeepView for Note {
    type V = NoteView;

    open spec fn deep_view(&self) -> NoteView {
        self@
    }
}

impl Clone for Stroke {
    fn clone(&self) -> (copy: Stroke)
        ensures
            copy@ == self@,
    {
        let points = self.points.clone();
        let pressure = self.pressure.clone();
        assert(points@ =~= self.points@);
        assert(pressure@ =~= self.pressure@);
        Stroke { points, color: self.color.clone(), thickness: self.thickness, pressure }
    }
}

impl Clone for Background {
    fn clone(&self) -> (copy: Background)
        ensures
            copy@ == self@,
    {
        match self {
            Background::Blank => Background::Blank,
            Background::Lined { spacing } => Background::Lined { spacing: *spacing },
            Background::Grid { spacing } => Background::Grid { spacing: *spacing },
            Background::Pdf { file_path } => Background::Pdf { file_path: file_path.clone() },
        }
    }
}

impl Clone for Page {
    fn clone(&self) -> (copy: Page)
        ensures
            copy@ == self@,
    {
        let mut strokes: Vec<Stroke> = Vec::new();
        let n: usize = self.strokes.len();
        let mut i: usize = 0;
        while i < n
            invariant
                i <= n,
                n == self.strokes@.len(),
                strokes.deep_view() == self.strokes.deep_view().take(i as int),
            decreases n - i,
        {
            let ghost before = strokes.deep_view();
            let stroke = self.strokes[i].clone();
            strokes.push(stroke);
            i += 1;
            assert(strokes.deep_view() =~= before.push(stroke@));
            assert(strokes.deep_view() =~= self.strokes.deep_view().take(i as int));
        }
        assert(self.strokes.deep_view().take(n as int) =~= self.strokes.deep_view());
        Page {
            strokes,
            background: self.background.clone(),
            width: self.width,
            height: self.height,
        }
    }
}

impl Clone for Note {
    fn clone(&self) -> (copy: Note)
        ensures
            copy@ == self@,
    {
        let mut pages: Vec<Page> = Vec::new();
        let n: usize = self.pages.len();
        let mut i: usize = 0;
        while i < n
            invariant
                i <= n,
                n == self.pages@.len(),
                pages.deep_view() == self.pages.deep_view().take(i as int),
            decreases n - i,
        {
            let ghost before = pages.deep_view();
            let page = self.pages[i].clone();
            pages.push(page);
            i += 1;
            assert(pages.deep_view() =~= before.push(page@));
            assert(pages.deep_view() =~= self.pages.deep_view().take(i as int));
        }
        assert(self.pages.deep_view().take(n as int) =~= self.pages.deep_view());
        Note {
            id: self.id.clone(),
            title: self.title.clone(),
            pages,
            created_at: self.created_at,
            updated_at: self.updated_at,
            current_page: self.current_page,
        }
    }
}

impl PageView {
    /// A page of the default size without ink.
    pub open spec fn empty(background: BackgroundView) -> PageView {
        PageView {
            strokes: Seq::empty(),
            background,
            width: DEFAULT_PAGE_WIDTH,
            height: DEFAULT_PAGE_HEIGHT,
        }
    }

    pub open spec fn with_stroke(self, stroke: StrokeView) -> PageView {
        PageView { strokes: self.strokes.push(stroke), ..self }
    }

    pub open spec fn with_background(self, background: BackgroundView) -> PageView {
        PageView { background, ..self }
    }
}

impl NoteView {
    /// The structural invariant: at least one page, and `current_page`
    /// names one of them.
    pub open spec fn well_formed(self) -> bool {
        &&& self.pages.len() >= 1
        &&& self.current_page < self.pages.len()
    }

    /// No update is dated before the creation.
    pub open spec fn chronological(self) -> bool {
        self.created_at <= self.updated_at
    }

    /// The note that creation yields: one blank page of the default size,
    /// shown, and both timestamps at `now`.
    pub open spec fn fresh(id: Seq<char>, title: Seq<char>, now: u64) -> NoteView {
        NoteView {
            id,
            title,
            pages: seq![PageView::empty(BackgroundView::Blank)],
            created_at: now,
            updated_at: now,
            current_page: 0,
        }
    }

    /// Appends `stroke` to the current page and dates the update at `now`.
    /// Where `current_page` names no page, nothing changes.
    pub open spec fn add_stroke(self, stroke: StrokeView, now: u64) -> NoteView {
        if self.current_page < self.pages.len() {
            let i = self.current_page as int;
            NoteView {
                pages: self.pages.update(i, self.pages[i].with_stroke(stroke)),
                updated_at: now,
                ..self
            }
        } else {
            self
        }
    }

    /// Appends an empty page of the default size and shows it.
    pub open spec fn add_page(self, background: BackgroundView) -> NoteView {
        NoteView {
            pages: self.pages.push(PageView::empty(background)),
            current_page: self.pages.len(),
            ..self
        }
    }

    /// Whether the page at `index` may be removed: it exists and is not the
    /// only one.
    pub open spec fn can_remove_page(self, index: nat) -> bool {
        self.pages.len() > 1 && index < self.pages.len()
    }

    /// Removes the page at `index`. The page shown moves one back where it
    /// was at or behind `index` and not the first.
    pub open spec fn remove_page(self, index: nat) -> NoteView
        recommends
            self.can_remove_page(index),
    {
        NoteView {
            pages: self.pages.remove(index as int),
            current_page: if self.current_page >= index && self.current_page > 0 {
                (self.current_page - 1) as nat
            } else {
                self.current_page
            },
            ..self
        }
    }

    /// Replaces the background of the current page. Where `current_page`
    /// names no page, nothing changes.
    pub open spec fn set_background(self, background: BackgroundView) -> NoteView {
        if self.current_page < self.pages.len() {
            let i = self.current_page as int;
            NoteView {
                pages: self.pages.update(i, self.pages[i].with_background(background)),
                ..self
            }
        } else {
            self
        }
    }
}

/// The failure that removing the page at `index` reports where it may not
/// be removed: the sole page first, then the index.
pub open spec fn remove_page_error(note: NoteView, index: nat) -> NoteErrorView {
    NoteErrorView {
        kind: ErrorKind::InvalidOperation,
        message: if note.pages.len() <= 1 {
            "Cannot remove the last page"@
        } else {
            "Page index out of bounds"@
        },
    }
}

impl Page {
    /// An empty page of the default size.
    pub fn new(background: Background) -> (page: Page)
        ensures
            page@ == PageView::empty(background@),
    {
        let page = Page {
            strokes: Vec::new(),
            background,
            width: DEFAULT_PAGE_WIDTH,
            height: DEFAULT_PAGE_HEIGHT,
        };
        assert(page.strokes.deep_view() =~= Seq::empty());
        page
    }
}

impl Note {
    /// Creates a note: a newly drawn random identifier, both timestamps at
    /// the current time, one blank page of the default size, shown.
    pub fn new(title: String) -> (note: Note)
        ensures
            note@ == NoteView::fresh(note@.id, title@, note@.created_at),
            is_random_uuid_text(note@.id),
            note@.id.len() > 0,
            note@.pages.len() == 1,
            note@.current_page == 0,
            note@.created_at == note@.updated_at,
            note@.well_formed(),
    {
        Note::with_identity(fresh_id(), title, unix_seconds_now())
    }

    /// The note that creation yields for a given identifier and time: one
    /// blank page of the default size, shown, and both timestamps at `now`.
    pub fn with_identity(id: String, title: String, now: u64) -> (note: Note)
        ensures
            note@ == NoteView::fresh(id@, title@, now),
            note@.well_formed(),
            note@.chronological(),
    {
        let mut pages: Vec<Page> = Vec::new();
        pages.push(Page::new(Background::Blank));
        let note = Note { id, title, pages, created_at: now, updated_at: now, current_page: 0 };
        assert(note.pages.deep_view() =~= seq![PageView::empty(BackgroundView::Blank)]);
        note
    }

    /// Appends `stroke` to the current page and sets `updated_at` to the
    /// current time. Where `current_page` names no page, the note is left
    /// as it is, its `updated_at` too.
    pub fn add_stroke(&mut self, stroke: Stroke)
        ensures
            final(self)@ == old(self)@.add_stroke(stroke@, final(self)@.updated_at),
            old(self)@.well_formed() ==> final(self)@.well_formed(),
    {
        self.add_stroke_at(stroke, unix_seconds_now());
    }

    /// Appends `stroke` to the current page and sets `updated_at` to `now`.
    /// Where `current_page` names no page, the note is left as it is.
    pub fn add_stroke_at(&mut self, stroke: Stroke, now: u64)
        ensures
            final(self)@ == old(self)@.add_stroke(stroke@, now),
            old(self)@.well_formed() ==> final(self)@.well_formed(),
    {
        if self.current_page < self.pages.len() {
            let ghost before = self.pages.deep_view();
            let ghost i = self.current_page as int;
            self.pages[self.current_page].strokes.push(stroke);
            self.updated_at = now;
            proof {
                assert(self.pages[i].strokes.deep_view() =~= before[i].strokes.push(stroke@));
                assert(self.pages.deep_view() =~= before.update(i, before[i].with_stroke(stroke@)));
            }
        }
    }

    /// Appends an empty page of the default size with the given background
    /// and shows it. `updated_at` is not touched.
    pub fn add_page(&mut self, background: Background)
        ensures
            final(self)@ == old(self)@.add_page(background@),
            final(self)@.well_formed(),
    {
        let ghost before = self.pages.deep_view();
        self.pages.push(Page::new(background));
        self.current_page = self.pages.len() - 1;
        proof {
            assert(self.pages.deep_view() =~= before.push(PageView::empty(background@)));
        }
    }

    /// Removes the page at `page_index`. Fails, and leaves the note as it
    /// is, where that page is the only one or `page_index` names none.
    /// `updated_at` is not touched.
    pub fn remove_page(&mut self, page_index: usize) -> (res: Result<(), NoteError>)
        ensures
            res is Ok <==> old(self)@.can_remove_page(page_index as nat),
            res is Ok ==> final(self)@ == old(self)@.remove_page(page_index as nat),
            res is Ok ==> final(self)@.pages.len() == old(self)@.pages.len() - 1,
            res is Ok && old(self)@.well_formed() ==> final(self)@.well_formed(),
            res matches Err(e) ==> {
                &&& final(self)@ == old(self)@
                &&& e@ == remove_page_error(old(self)@, page_index as nat)
            },
    {
        if self.pages.len() <= 1 {
            return Err(NoteError::new(ErrorKind::InvalidOperation, "Cannot remove the last page"));
        }
        if page_index >= self.pages.len() {
            return Err(NoteError::new(ErrorKind::InvalidOperation, "Page index out of bounds"));
        }
        let ghost before = self.pages.deep_view();
        self.pages.remove(page_index);
        if self.current_page >= page_index && self.current_page > 0 {
            self.current_page -= 1;
        }
        proof {
            assert(self.pages.deep_view() =~= before.remove(page_index as int));
        }
        Ok(())
    }

    /// Replaces the background of the current page. Where `current_page`
    /// names no page, the note is left as it is. `updated_at` is not
    /// touched.
    pub fn set_background(&mut self, background: Background)
        ensures
            final(self)@ == old(self)@.set_background(background@),
            old(self)@.well_formed() ==> final(self)@.well_formed(),
    {
        if self.current_page < self.pages.len() {
            let ghost before = self.pages.deep_view();
            let ghost i = self.current_page as int;
            self.pages[self.current_page].background = background;
            proof {
                assert(self.pages.deep_view() =~= before.update(
                    i,
                    before[i].with_background(background@),
                ));
            }
        }
    }
}

/// A well-formed note stays well-formed under every operation, and a
/// newly created note is well-formed.
pub proof fn lemma_operations_keep_well_formed(
    note: NoteView,
    stroke: StrokeView,
    background: BackgroundView,
    now: u64,
    index: nat,
)
    requires
        note.well_formed(),
    ensures
        NoteView::fresh(note.id, note.title, now).well_formed(),
        note.add_stroke(stroke, now).well_formed(),
        note.add_page(background).well_formed(),
        note.set_background(background).well_formed(),
        note.can_remove_page(index) ==> note.remove_page(index).well_formed(),
{
}

/// Removing a page takes exactly one page away, whatever page is shown.
pub proof fn lemma_remove_page_takes_one(note: NoteView, index: nat)
    requires
        note.can_remove_page(index),
    ensures
        note.remove_page(index).pages.len() == note.pages.len() - 1,
        note.remove_page(index).pages.len() >= 1,
{
}

/// After a page was added it is the page shown, and it is the last.
pub proof fn lemma_add_page_shows_last(note: NoteView, background: BackgroundView)
    ensures
        note.add_page(background).pages.len() == note.pages.len() + 1,
        note.add_page(background).current_page == note.add_page(background).pages.len() - 1,
        note.add_page(background).pages.last() == PageView::empty(background),
{
}

/// Only adding a stroke dates an update: pages and backgrounds change
/// without a trace in the timestamps, and nothing ever changes the
/// identifier, the title or the creation time.
pub proof fn lemma_timestamps(
    note: NoteView,
    stroke: StrokeView,
    background: BackgroundView,
    now: u64,
    index: nat,
)
    ensures
        note.add_page(background).updated_at == note.updated_at,
        note.set_background(background).updated_at == note.updated_at,
        note.remove_page(index).updated_at == note.updated_at,
        note.current_page < note.pages.len() ==> note.add_stroke(stroke, now).updated_at == now,
        note.add_stroke(stroke, now).created_at == note.created_at,
        note.add_page(background).created_at == note.created_at,
        note.set_background(background).created_at == note.created_at,
        note.remove_page(index).created_at == note.created_at,
        note.add_stroke(stroke, now).id == note.id,
        note.add_page(background).id == note.id,
        note.set_background(background).id == note.id,
        note.remove_page(index).id == note.id,
{
}

/// A stroke added no earlier than the note was created keeps the update
/// time at or after the creation time.
pub proof fn lemma_add_stroke_chronological(note: NoteView, stroke: StrokeView, now: u64)
    requires
        note.chronological(),
        now >= note.created_at,
    ensures
        note.add_stroke(stroke, now).chronological(),
{
}

/// A stroke goes to the page shown and to no other, behind the strokes
/// that the page already has.
pub proof fn lemma_add_stroke_appends(note: NoteView, stroke: StrokeView, now: u64)
    requires
        note.well_formed(),
    ensures
        note.add_stroke(stroke, now).pages.len() == note.pages.len(),
        note.add_stroke(stroke, now).pages[note.current_page as int].strokes
            == note.pages[note.current_page as int].strokes.push(stroke),
        forall|i: int|
            0 <= i < note.pages.len() && i != note.current_page ==> note.add_stroke(
                stroke,
                now,
            ).pages[i] == note.pages[i],
{
}

} // verus!
