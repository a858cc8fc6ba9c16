//! The layout of the file store and the order of a listing.

use crate::error::{ErrorKind, NoteError, NoteErrorView};
use crate::note::{Note, NoteView};
use vstd::prelude::*;
use vstd::string::StringExecFns;
use vstd::seq_lib::{to_multiset_build, to_multiset_insert};

verus! {

/// The directory that holds the store, one file per note.
pub const NOTES_DIR: &'static str = "notes";

/// The extension of a note file, without the dot.
pub const FILE_EXTENSION: &'static str = "spn";

/// The name of the file that holds the note with the given identifier: the
/// identifier, a dot, the extension.
pub open spec fn file_name_of(id: Seq<char>) -> Seq<char> {
    id + "."@ + FILE_EXTENSION@
}

/// The identifier of the note that a file of the given name holds: what
/// stands before the dot and the extension, where the name ends in them
/// and something stands before. `None` for any other name.
pub open spec fn note_id_of(file_name: Seq<char>) -> Option<Seq<char>> {
    let suffix = "."@ + FILE_EXTENSION@;
    let cut = file_name.len() - suffix.len();
    if cut > 0 && file_name.subrange(cut, file_name.len() as int) == suffix {
        Some(file_name.subrange(0, cut))
    } else {
        None
    }
}

/// The name of the file that holds the note with the given identifier.
pub fn note_file_name(id: &str) -> (name: String)
    ensures
        name@ == file_name_of(id@),
{
    let mut name: String = id.to_owned();
    name.append(".");
    name.append(FILE_EXTENSION);
    name
}

/// Tells a note file by its name and gives the identifier of its note:
/// `Some` for a name that ends in a dot and the extension with something
/// before them, `None` for every other entry of the directory.
pub fn note_id_of_file_name(file_name: &str) -> (id: Option<String>)
    ensures
        match id {
            Some(id) => note_id_of(file_name@) == Some(id@),
            None => note_id_of(file_name@) is None,
        },
{
    proof {
        reveal_strlit(".");
        reveal_strlit("spn");
    }
    let n: usize = file_name.unicode_len();
    if n <= 4 {
        return None;
    }
    let cut: usize = n - 4;
    let ghost suffix = "."@ + FILE_EXTENSION@;
    if file_name.get_char(cut) == '.' && file_name.get_char(cut + 1) == 's' && file_name.get_char(
        cut + 2,
    ) == 'p' && file_name.get_char(cut + 3) == 'n' {
        assert(file_name@.subrange(cut as int, n as int) =~= suffix);
        Some(file_name.substring_char(0, cut).to_owned())
    } else {
        assert(file_name@.subrange(cut as int, n as int) != suffix) by {
            let tail = file_name@.subrange(cut as int, n as int);
            if tail == suffix {
                assert(tail[0] == suffix[0]);
                assert(tail[1] == suffix[1]);
                assert(tail[2] == suffix[2]);
                assert(tail[3] == suffix[3]);
            }
        }
        None
    }
}

/// A load that succeeded.
pub open spec fn is_loaded() -> spec_fn(Result<Note, NoteError>) -> bool {
    |r: Result<Note, NoteError>| r is Ok
}

/// The note of a load that succeeded.
pub open spec fn loaded_note() -> spec_fn(Result<Note, NoteError>) -> NoteView {
    |r: Result<Note, NoteError>| r->Ok_0@
}

/// The notes of the loads that succeeded, in the order of the loads.
pub open spec fn loaded_notes(results: Seq<Result<Note, NoteError>>) -> Seq<NoteView> {
    results.filter(is_loaded()).map_values(loaded_note())
}

/// Keeps the notes that loaded and drops the loads that failed, whatever
/// the failure; the order of the loads is kept.
pub fn keep_loaded(results: Vec<Result<Note, NoteError>>) -> (notes: Vec<Note>)
    ensures
        notes.deep_view() == loaded_notes(results@),
{
    let mut notes: Vec<Note> = Vec::new();
    proof {
        reveal(Seq::filter);
        assert(notes.deep_view() =~= loaded_notes(results@.take(0)));
    }
    for r in it: results
        invariant
            it.seq() == results@,
            notes.deep_view() == loaded_notes(results@.take(it.index() as int)),
    {
        let ghost before = notes.deep_view();
        let ghost prefix = results@.take(it.index() as int);
        proof {
            assert(results@.take(it.index() + 1) =~= prefix.push(r));
            prefix.lemma_filter_push(r, is_loaded());
        }
        match r {
            Ok(note) => {
                notes.push(note);
                assert(notes.deep_view() =~= before.push(note@));
                assert(prefix.filter(is_loaded()).push(r).map_values(loaded_note()) =~= before.push(
                    note@,
                ));
            },
            Err(_) => {},
        }
    }
    assert(results@.take(results@.len() as int) =~= results@);
    notes
}

/// Ordered by `updated_at`, the latest first; notes updated at the same
/// second may stand in either order.
pub open spec fn newest_first(notes: Seq<NoteView>) -> bool {
    forall|i: int, j: int|
        0 <= i <= j < notes.len() ==> notes[i].updated_at >= notes[j].updated_at
}

/// The place of a note updated at `updated_at` in a listing: behind every
/// note that is as recent or more recent, before every older one.
fn listing_position(sorted: &Vec<Note>, updated_at: u64) -> (pos: usize)
    requires
        newest_first(sorted.deep_view()),
    ensures
        pos <= sorted.len(),
        forall|k: int| 0 <= k < pos ==> sorted.deep_view()[k].updated_at >= updated_at,
        forall|k: int| pos <= k < sorted.len() ==> sorted.deep_view()[k].updated_at < updated_at,
{
    let n: usize = sorted.len();
    let mut pos: usize = 0;
    while pos < n && sorted[pos].updated_at >= updated_at
        invariant
            pos <= n,
            n == sorted.len(),
            forall|k: int| 0 <= k < pos ==> sorted.deep_view()[k].updated_at >= updated_at,
        decreases n - pos,
    {
        pos += 1;
    }
    assert(forall|k: int| pos <= k < n ==> sorted.deep_view()[k].updated_at < updated_at) by {
        if pos < n {
            assert(sorted.deep_view()[pos as int].updated_at < updated_at);
        }
    }
    pos
}

/// Orders notes by `updated_at`, the latest first. The result holds the
/// same notes, each as often as it was given.
pub fn sort_newest_first(notes: Vec<Note>) -> (sorted: Vec<Note>)
    ensures
        newest_first(sorted.deep_view()),
        sorted.deep_view().to_multiset() == notes.deep_view().to_multiset(),
        sorted.len() == notes.len(),
{
    let ghost given = notes.deep_view();
    let mut sorted: Vec<Note> = Vec::new();
    proof {
        assert(sorted.deep_view() =~= given.take(0));
    }
    for note in it: notes
        invariant
            it.seq() == notes@,
            given == notes.deep_view(),
            newest_first(sorted.deep_view()),
            sorted.len() == it.index(),
            sorted.deep_view().to_multiset() == given.take(it.index() as int).to_multiset(),
    {
        let ghost before = sorted.deep_view();
        let pos: usize = listing_position(&sorted, note.updated_at);
        sorted.insert(pos, note);
        proof {
            assert(sorted.deep_view() =~= before.insert(pos as int, note@));
            to_multiset_insert(before, pos as int, note@);
            assert(given.take(it.index() + 1) =~= given.take(it.index() as int).push(note@));
            to_multiset_build(given.take(it.index() as int), note@);
        }
    }
    assert(given.take(given.len() as int) =~= given);
    sorted
}

/// The listing of a store: the notes that loaded, ordered by `updated_at`
/// with the latest first. A load that failed, whatever the failure, is left
/// out and does not fail the listing.
pub fn list_notes(loaded: Vec<Result<Note, NoteError>>) -> (notes: Vec<Note>)
    ensures
        newest_first(notes.deep_view()),
        notes.deep_view().to_multiset() == loaded_notes(loaded@).to_multiset(),
{
    sort_newest_first(keep_loaded(loaded))
}

/// The name that a note is saved under leads back to the note's identifier,
/// for every identifier but the empty one.
pub proof fn lemma_file_name_round_trip(id: Seq<char>)
    requires
        id.len() > 0,
    ensures
        note_id_of(file_name_of(id)) == Some(id),
{
    reveal_strlit(".");
    reveal_strlit("spn");
    let suffix = "."@ + FILE_EXTENSION@;
    let name = file_name_of(id);
    assert(name =~= id + suffix);
    assert(name.subrange(id.len() as int, name.len() as int) =~= suffix);
    assert(name.subrange(0, id.len() as int) =~= id);
}

/// Two identifiers never share a file name.
pub proof fn lemma_file_names_differ(a: Seq<char>, b: Seq<char>)
    requires
        file_name_of(a) == file_name_of(b),
    ensures
        a == b,
{
    reveal_strlit(".");
    reveal_strlit("spn");
    let suffix = "."@ + FILE_EXTENSION@;
    assert(file_name_of(a) =~= a + suffix);
    assert(file_name_of(b) =~= b + suffix);
    assert(a.len() == b.len());
    assert forall|i: int| 0 <= i < a.len() implies a[i] == b[i] by {
        assert((a + suffix)[i] == (b + suffix)[i]);
    }
    assert(a =~= b);
}

/// Among notes that were all updated at different times, a listing puts
/// each note strictly before every older one.
pub proof fn lemma_distinct_times_strictly_ordered(notes: Seq<NoteView>, i: int, j: int)
    requires
        newest_first(notes),
        forall|a: int, b: int|
            0 <= a < b < notes.len() ==> notes[a].updated_at != notes[b].updated_at,
        0 <= i < j < notes.len(),
    ensures
        notes[i].updated_at > notes[j].updated_at,
{
}

} // verus!
