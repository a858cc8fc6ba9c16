use speedynote::clock::seconds_or_epoch;
use speedynote::error::ErrorKind;
use speedynote::note::{Background, Note, Page, Point, Stroke};

fn sample_stroke() -> Stroke {
    Stroke {
        points: vec![
            Point { x: 0, y: 0, timestamp: 1 },
            Point { x: 10_000, y: 10_000, timestamp: 2 },
        ],
        color: "#000000".to_string(),
        thickness: 2_000,
        pressure: vec![1_000, 1_000],
    }
}

fn is_lower_hex(c: char) -> bool {
    c.is_ascii_digit() || ('a'..='f').contains(&c)
}

#[test]
fn new_note_has_one_blank_page() {
    let note = Note::new("Physics".to_string());
    assert_eq!(note.title, "Physics");
    assert_eq!(note.pages.len(), 1);
    assert_eq!(note.current_page, 0);
    assert_eq!(note.created_at, note.updated_at);
    assert_eq!(note.pages[0].background, Background::Blank);
    assert_eq!(note.pages[0].width, 800_000);
    assert_eq!(note.pages[0].height, 1_000_000);
    assert!(note.pages[0].strokes.is_empty());
}

#[test]
fn new_note_accepts_any_title() {
    for title in ["", "a", "Ünïcödé 📓", "line\nbreak"] {
        let note = Note::new(title.to_string());
        assert_eq!(note.title, title);
        assert_eq!(note.pages.len(), 1);
        assert_eq!(note.current_page, 0);
        assert!(!note.id.is_empty());
        assert_eq!(note.created_at, note.updated_at);
    }
}

#[test]
fn new_note_id_is_a_random_uuid() {
    let id = Note::new("t".to_string()).id;
    let chars: Vec<char> = id.chars().collect();
    assert_eq!(chars.len(), 36);
    for (i, c) in chars.iter().enumerate() {
        if i == 8 || i == 13 || i == 18 || i == 23 {
            assert_eq!(*c, '-');
        } else {
            assert!(is_lower_hex(*c));
        }
    }
    assert_eq!(chars[14], '4');
    assert!(matches!(chars[19], '8' | '9' | 'a' | 'b'));
}

#[test]
fn new_note_ids_differ_between_calls() {
    let a = Note::new("same".to_string());
    let b = Note::new("same".to_string());
    assert_ne!(a.id, b.id);
}

#[test]
fn new_note_is_dated_now() {
    let note = Note::new("t".to_string());
    assert!(note.created_at > 1_600_000_000);
}

#[test]
fn with_identity_is_exact() {
    let note = Note::with_identity("id-1".to_string(), "Title".to_string(), 42);
    let expected = Note {
        id: "id-1".to_string(),
        title: "Title".to_string(),
        pages: vec![Page {
            strokes: vec![],
            background: Background::Blank,
            width: 800_000,
            height: 1_000_000,
        }],
        created_at: 42,
        updated_at: 42,
        current_page: 0,
    };
    assert_eq!(note, expected);
}

#[test]
fn add_stroke_appends_to_current_page() {
    let mut note = Note::new("Physics".to_string());
    note.add_stroke(sample_stroke());
    assert_eq!(note.pages[0].strokes.len(), 1);
    assert_eq!(note.pages[0].strokes[0], sample_stroke());
    assert!(note.updated_at >= note.created_at);
}

#[test]
fn add_stroke_at_sets_updated_at() {
    let mut note = Note::with_identity("n".to_string(), "t".to_string(), 100);
    note.add_page(Background::Grid { spacing: 10_000 });
    note.add_stroke_at(sample_stroke(), 250);
    assert_eq!(note.updated_at, 250);
    assert_eq!(note.created_at, 100);
    assert!(note.pages[0].strokes.is_empty());
    assert_eq!(note.pages[1].strokes, vec![sample_stroke()]);
    note.add_stroke_at(sample_stroke(), 300);
    assert_eq!(note.pages[1].strokes.len(), 2);
    assert_eq!(note.updated_at, 300);
}

#[test]
fn add_stroke_out_of_range_is_a_no_op() {
    let mut note = Note::with_identity("n".to_string(), "t".to_string(), 100);
    note.current_page = 5;
    let before = note.clone();
    note.add_stroke_at(sample_stroke(), 999);
    assert_eq!(note, before);
    note.add_stroke(sample_stroke());
    assert_eq!(note, before);
}

#[test]
fn stroke_with_mismatched_pressure_is_kept_as_it_is() {
    let mut note = Note::with_identity("n".to_string(), "t".to_string(), 1);
    let mut stroke = sample_stroke();
    stroke.pressure = vec![500];
    note.add_stroke_at(stroke, 2);
    assert_eq!(note.pages[0].strokes[0].points.len(), 2);
    assert_eq!(note.pages[0].strokes[0].pressure, vec![500]);
}

#[test]
fn add_page_shows_the_new_last_page() {
    let mut note = Note::with_identity("n".to_string(), "t".to_string(), 7);
    note.add_page(Background::Lined { spacing: 20_000 });
    assert_eq!(note.pages.len(), 2);
    assert_eq!(note.current_page, 1);
    assert_eq!(note.pages[1].background, Background::Lined { spacing: 20_000 });
    assert_eq!(note.pages[1].width, 800_000);
    assert_eq!(note.pages[1].height, 1_000_000);
    assert!(note.pages[1].strokes.is_empty());
    assert_eq!(note.updated_at, 7);
    note.current_page = 0;
    note.add_page(Background::Blank);
    assert_eq!(note.current_page, 2);
}

#[test]
fn remove_page_refuses_the_sole_page() {
    let mut note = Note::with_identity("n".to_string(), "t".to_string(), 7);
    let before = note.clone();
    let err = note.remove_page(0).unwrap_err();
    assert_eq!(err.kind, ErrorKind::InvalidOperation);
    assert_eq!(err.message, "Cannot remove the last page");
    assert_eq!(err.to_string(), "Cannot remove the last page");
    assert_eq!(note, before);
    let err = note.remove_page(3).unwrap_err();
    assert_eq!(err.message, "Cannot remove the last page");
}

#[test]
fn remove_page_refuses_an_index_out_of_bounds() {
    let mut note = Note::with_identity("n".to_string(), "t".to_string(), 7);
    note.add_page(Background::Blank);
    let before = note.clone();
    let err = note.remove_page(2).unwrap_err();
    assert_eq!(err.kind, ErrorKind::InvalidOperation);
    assert_eq!(err.message, "Page index out of bounds");
    assert_eq!(note, before);
    assert!(note.remove_page(usize::MAX).is_err());
}

#[test]
fn remove_page_moves_the_current_page_back() {
    let mut note = Note::with_identity("n".to_string(), "t".to_string(), 7);
    note.add_page(Background::Lined { spacing: 1 });
    note.add_page(Background::Grid { spacing: 2 });
    assert_eq!(note.current_page, 2);
    assert!(note.remove_page(1).is_ok());
    assert_eq!(note.pages.len(), 2);
    assert_eq!(note.current_page, 1);
    assert_eq!(note.pages[1].background, Background::Grid { spacing: 2 });
    assert!(note.remove_page(1).is_ok());
    assert_eq!(note.pages.len(), 1);
    assert_eq!(note.current_page, 0);
    assert_eq!(note.updated_at, 7);
}

#[test]
fn remove_page_behind_the_current_page_keeps_it() {
    let mut note = Note::with_identity("n".to_string(), "t".to_string(), 7);
    note.add_page(Background::Lined { spacing: 1 });
    note.add_page(Background::Grid { spacing: 2 });
    note.current_page = 0;
    assert!(note.remove_page(2).is_ok());
    assert_eq!(note.current_page, 0);
    assert!(note.remove_page(0).is_ok());
    assert_eq!(note.current_page, 0);
    assert_eq!(note.pages.len(), 1);
    assert_eq!(note.pages[0].background, Background::Lined { spacing: 1 });
}

#[test]
fn remove_page_keeps_current_page_valid_for_every_choice() {
    for pages in 2usize..5 {
        for current in 0..pages {
            for index in 0..pages {
                let mut note = Note::with_identity("n".to_string(), "t".to_string(), 7);
                for _ in 1..pages {
                    note.add_page(Background::Blank);
                }
                note.current_page = current;
                assert!(note.remove_page(index).is_ok());
                assert_eq!(note.pages.len(), pages - 1);
                assert!(note.current_page < note.pages.len());
            }
        }
    }
}

#[test]
fn set_background_changes_the_current_page_only() {
    let mut note = Note::with_identity("n".to_string(), "t".to_string(), 7);
    note.add_page(Background::Blank);
    note.set_background(Background::Pdf { file_path: "a.pdf".to_string() });
    assert_eq!(note.pages[0].background, Background::Blank);
    assert_eq!(note.pages[1].background, Background::Pdf { file_path: "a.pdf".to_string() });
    assert_eq!(note.updated_at, 7);
    note.current_page = 9;
    let before = note.clone();
    note.set_background(Background::Grid { spacing: 5 });
    assert_eq!(note, before);
}

#[test]
fn clone_is_field_for_field() {
    let mut note = Note::with_identity("n".to_string(), "t".to_string(), 7);
    note.add_stroke_at(sample_stroke(), 8);
    note.add_page(Background::Pdf { file_path: "x.pdf".to_string() });
    note.add_stroke_at(sample_stroke(), 9);
    let copy = note.clone();
    assert_eq!(copy, note);
    assert_eq!(copy.pages[1].clone(), note.pages[1]);
    assert_eq!(sample_stroke().clone(), sample_stroke());
    assert_eq!(
        Background::Lined { spacing: 3 }.clone(),
        Background::Lined { spacing: 3 }
    );
}

#[test]
fn page_new_has_the_default_size() {
    let page = Page::new(Background::Grid { spacing: 20_000 });
    assert_eq!(page.width, 800_000);
    assert_eq!(page.height, 1_000_000);
    assert_eq!(page.background, Background::Grid { spacing: 20_000 });
    assert!(page.strokes.is_empty());
}

#[test]
fn clock_before_the_epoch_reads_as_the_epoch() {
    assert_eq!(seconds_or_epoch(None), 0);
    assert_eq!(seconds_or_epoch(Some(0)), 0);
    assert_eq!(seconds_or_epoch(Some(1_700_000_000)), 1_700_000_000);
    assert_eq!(seconds_or_epoch(Some(u64::MAX)), u64::MAX);
}
