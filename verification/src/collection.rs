//! The notes that an application holds in memory, addressed by identifier.

use crate::error::{ErrorKind, NoteError, NoteErrorView};
use crate::ident::is_random_uuid_text;
use crate::note::{Note, NoteView};
use crate::pdf::{export_to_pdf, import_from_pdf, imported_note, rendered_note, PdfDocument};
use crate::storage::{newest_first, sort_newest_first};
use crate::text::str_eq;
use vstd::prelude::*;

verus! {

/// The notes held in memory, in the order in which they came.
pub struct NoteCollection {
    pub notes: Vec<Note>,
}

impl View for NoteCollection {
    type V = Seq<NoteView>;

    open spec fn view(&self) -> Seq<NoteView> {
        self.notes.deep_view()
    }
}

/// Whether some note of `notes` has the identifier `id`.
pub open spec fn holds_id(notes: Seq<NoteView>, id: Seq<char>) -> bool {
    exists|i: int| 0 <= i < notes.len() && (#[trigger] notes[i]).id == id
}

/// Whether `i` is the place of the first note of `notes` with the
/// identifier `id`.
pub open spec fn is_first_with_id(notes: Seq<NoteView>, id: Seq<char>, i: int) -> bool {
    &&& 0 <= i < notes.len()
    &&& notes[i].id == id
    &&& forall|j: int| 0 <= j < i ==> (#[trigger] notes[j]).id != id
}

/// The failure that asking for an identifier which no note has reports.
pub open spec fn note_not_found() -> NoteErrorView {
    NoteErrorView { kind: ErrorKind::NotFound, message: "Note not found"@ }
}

/// The place of the first note of `notes` with the identifier `id`, where
/// there is one.
pub open spec fn first_with_id(notes: Seq<NoteView>, id: Seq<char>) -> Option<int> {
    if holds_id(notes, id) {
        Some(choose|i: int| is_first_with_id(notes, id, i))
    } else {
        None
    }
}

/// The first note of `notes` with the identifier `id`, where there is one.
pub open spec fn lookup(notes: Seq<NoteView>, id: Seq<char>) -> Option<NoteView> {
    match first_with_id(notes, id) {
        Some(i) => Some(notes[i]),
        None => None,
    }
}

/// `notes` with `note` held under its own identifier: in the place of the
/// first note that has this identifier, as the last where none has it.
pub open spec fn upsert(notes: Seq<NoteView>, note: NoteView) -> Seq<NoteView> {
    match first_with_id(notes, note.id) {
        Some(i) => notes.update(i, note),
        None => notes.push(note),
    }
}

/// The first place of an identifier is one place: it exists exactly where
/// some note has the identifier, and no other place is the first.
pub proof fn lemma_first_with_id(notes: Seq<NoteView>, id: Seq<char>, i: int)
    ensures
        is_first_with_id(notes, id, i) <==> first_with_id(notes, id) == Some(i),
        first_with_id(notes, id) is Some <==> holds_id(notes, id),
{
    if holds_id(notes, id) {
        let w = choose|w: int| 0 <= w < notes.len() && (#[trigger] notes[w]).id == id;
        lemma_some_place_is_first(notes, id, w);
        let f = choose|f: int| is_first_with_id(notes, id, f);
        if is_first_with_id(notes, id, i) {
            if i < f {
                assert(notes[i].id != id);
            } else if f < i {
                assert(notes[f].id != id);
            }
        }
    } else {
        if is_first_with_id(notes, id, i) {
            assert(notes[i].id == id);
        }
    }
}

/// Where a note at or before `upto` has the identifier, some place is the
/// first with it.
proof fn lemma_some_place_is_first(notes: Seq<NoteView>, id: Seq<char>, upto: int)
    requires
        0 <= upto < notes.len(),
        notes[upto].id == id,
    ensures
        exists|f: int| is_first_with_id(notes, id, f),
    decreases upto,
{
    if exists|j: int| 0 <= j < upto && (#[trigger] notes[j]).id == id {
        let j = choose|j: int| 0 <= j < upto && (#[trigger] notes[j]).id == id;
        lemma_some_place_is_first(notes, id, j);
    } else {
        assert(is_first_with_id(notes, id, upto));
    }
}

/// What was saved is what a load by its identifier gives back, whatever
/// the collection held before; the notes under other identifiers stay
/// what they were.
pub proof fn lemma_save_then_load(notes: Seq<NoteView>, note: NoteView, other: Seq<char>)
    ensures
        lookup(upsert(notes, note), note.id) == Some(note),
        other != note.id ==> lookup(upsert(notes, note), other) == lookup(notes, other),
{
    let after = upsert(notes, note);
    match first_with_id(notes, note.id) {
        Some(i) => {
            lemma_first_with_id(notes, note.id, i);
            assert(is_first_with_id(after, note.id, i)) by {
                assert forall|j: int| 0 <= j < i implies (#[trigger] after[j]).id != note.id by {
                    assert(after[j] == notes[j]);
                }
            }
            lemma_first_with_id(after, note.id, i);
        },
        None => {
            lemma_first_with_id(notes, note.id, 0);
            let last = notes.len() as int;
            assert(is_first_with_id(after, note.id, last)) by {
                assert forall|j: int| 0 <= j < last implies (#[trigger] after[j]).id
                    != note.id by {
                    assert(after[j] == notes[j]);
                    if notes[j].id == note.id {
                        assert(holds_id(notes, note.id));
                    }
                }
            }
            lemma_first_with_id(after, note.id, last);
        },
    }
    if other != note.id {
        lemma_first_with_id(notes, other, 0);
        lemma_first_with_id(after, other, 0);
        match first_with_id(notes, other) {
            Some(k) => {
                lemma_first_with_id(notes, other, k);
                assert(after[k] == notes[k]);
                assert(is_first_with_id(after, other, k)) by {
                    assert forall|j: int| 0 <= j < k implies (#[trigger] after[j]).id
                        != other by {
                        if after[j] != notes[j] {
                            assert(after[j] == note);
                        } else {
                            assert(notes[j].id != other);
                        }
                    }
                }
                lemma_first_with_id(after, other, k);
            },
            None => {
                assert(!holds_id(after, other)) by {
                    if holds_id(after, other) {
                        let w = choose|w: int|
                            0 <= w < after.len() && (#[trigger] after[w]).id == other;
                        if w < notes.len() && after[w] == notes[w] {
                            assert(notes[w].id == other);
                            assert(holds_id(notes, other));
                        } else {
                            assert(after[w] == note);
                        }
                    }
                }
            },
        }
    }
}

impl NoteCollection {
    /// A collection without notes.
    pub fn new() -> (collection: NoteCollection)
        ensures
            collection@ == Seq::<NoteView>::empty(),
    {
        let collection = NoteCollection { notes: Vec::new() };
        assert(collection@ =~= Seq::<NoteView>::empty());
        collection
    }

    /// The place of the first note with the identifier `id`.
    pub fn position(&self, id: &str) -> (found: Option<usize>)
        ensures
            match found {
                Some(i) => i < self@.len() && first_with_id(self@, id@) == Some(i as int),
                None => first_with_id(self@, id@) is None,
            },
    {
        proof {
            lemma_first_with_id(self@, id@, 0);
        }
        let n: usize = self.notes.len();
        let mut i: usize = 0;
        while i < n
            invariant
                i <= n,
                n == self.notes@.len(),
                forall|j: int| 0 <= j < i ==> (#[trigger] self@[j]).id != id@,
            decreases n - i,
        {
            if str_eq(self.notes[i].id.as_str(), id) {
                proof {
                    assert(is_first_with_id(self@, id@, i as int));
                    lemma_first_with_id(self@, id@, i as int);
                }
                return Some(i);
            }
            i += 1;
        }
        None
    }

    /// Creates a note with the given title, holds it as the last and gives
    /// its identifier.
    pub fn create_note(&mut self, title: String) -> (id: String)
        ensures
            final(self)@.len() == old(self)@.len() + 1,
            final(self)@.drop_last() == old(self)@,
            final(self)@.last() == NoteView::fresh(id@, title@, final(self)@.last().created_at),
            is_random_uuid_text(id@),
    {
        let ghost before = self@;
        let note = Note::new(title);
        let id = note.id.clone();
        self.notes.push(note);
        proof {
            assert(self@ =~= before.push(note@));
            assert(self@.drop_last() =~= before);
        }
        id
    }

    /// Holds `note` under its own identifier: in the place of the first
    /// note that has this identifier, as the last where none has it.
    pub fn save_note(&mut self, note: Note)
        ensures
            final(self)@ == upsert(old(self)@, note@),
    {
        let ghost before = self@;
        match self.position(note.id.as_str()) {
            Some(i) => {
                self.notes[i] = note;
                proof {
                    assert(self@ =~= before.update(i as int, note@));
                }
            },
            None => {
                self.notes.push(note);
                proof {
                    assert(self@ =~= before.push(note@));
                }
            },
        }
    }

    /// A copy of the first note with the identifier `id`; the failure
    /// `NotFound` where no note has it.
    pub fn load_note(&self, id: &str) -> (res: Result<Note, NoteError>)
        ensures
            match res {
                Ok(note) => lookup(self@, id@) == Some(note@),
                Err(e) => lookup(self@, id@) is None && e@ == note_not_found(),
            },
    {
        match self.position(id) {
            Some(i) => {
                let note = self.notes[i].clone();
                assert(note@ == self@[i as int]);
                Ok(note)
            },
            None => Err(NoteError::new(ErrorKind::NotFound, "Note not found")),
        }
    }

    /// Copies of all notes, ordered by `updated_at` with the latest first.
    pub fn get_notes_list(&self) -> (notes: Vec<Note>)
        ensures
            newest_first(notes.deep_view()),
            notes.deep_view().to_multiset() == self@.to_multiset(),
    {
        let mut copies: Vec<Note> = Vec::new();
        let n: usize = self.notes.len();
        let mut i: usize = 0;
        while i < n
            invariant
                i <= n,
                n == self.notes@.len(),
                copies.deep_view() == self@.take(i as int),
            decreases n - i,
        {
            let ghost before = copies.deep_view();
            let note = self.notes[i].clone();
            copies.push(note);
            i += 1;
            assert(copies.deep_view() =~= before.push(note@));
            assert(copies.deep_view() =~= self@.take(i as int));
        }
        assert(self@.take(n as int) =~= self@);
        sort_newest_first(copies)
    }

    /// The first note with the identifier `id`, rendered as PDF drawing
    /// content; the failure `NotFound` where no note has it.
    pub fn export_pdf(&self, id: &str) -> (res: Result<PdfDocument, NoteError>)
        ensures
            match res {
                Ok(doc) => lookup(self@, id@) is Some && doc@ == rendered_note(
                    lookup(self@, id@)->0,
                ),
                Err(e) => lookup(self@, id@) is None && e@ == note_not_found(),
            },
    {
        match self.position(id) {
            Some(i) => {
                let doc = export_to_pdf(&self.notes[i]);
                assert(doc@ == rendered_note(self@[i as int]));
                Ok(doc)
            },
            None => Err(NoteError::new(ErrorKind::NotFound, "Note not found")),
        }
    }

    /// Imports the PDF at `file_path` as a stub note, holds it as the last
    /// and gives its identifier.
    pub fn import_pdf(&mut self, file_path: &str) -> (res: Result<String, NoteError>)
        ensures
            res matches Ok(id) && {
                let note = final(self)@.last();
                &&& final(self)@.len() == old(self)@.len() + 1
                &&& final(self)@.drop_last() == old(self)@
                &&& note == imported_note(id@, note.title, file_path@, note.created_at)
                &&& is_random_uuid_text(id@)
            },
    {
        let ghost before = self@;
        match import_from_pdf(file_path) {
            Ok(note) => {
                let id = note.id.clone();
                self.notes.push(note);
                proof {
                    assert(self@ =~= before.push(note@));
                    assert(self@.drop_last() =~= before);
                }
                Ok(id)
            },
            Err(e) => Err(e),
        }
    }
}

} // verus!
