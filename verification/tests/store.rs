use notary::db::{Database, StoreError};
use notary::note::{field_writes, FieldWrite, Note, NoteRow};
use notary::text::text_at_or_before;

fn note(id: &str, created_at: &str) -> Note {
    Note::fresh(id.to_string(), created_at.to_string(), 10, 20, None)
}

fn ids(notes: &[Note]) -> Vec<String> {
    notes.iter().map(|n| n.id.clone()).collect()
}

#[test]
fn new_store_has_no_notes_and_the_default_settings() {
    let db = Database::new();
    assert!(db.get_all_notes().is_empty());
    assert!(db.get_open_notes().is_empty());
    assert_eq!(db.get_setting("theme"), Ok("light".to_string()));
    assert_eq!(db.get_setting("default_opacity"), Ok("0.95".to_string()));
}

#[test]
fn created_note_is_fetched_as_it_was_made() {
    let mut db = Database::new();
    let made = db
        .create_note_with("n1".to_string(), "2024-01-01T00:00:00+00:00".to_string(), 7, -9, None)
        .unwrap();
    let got = db.get_note("n1").unwrap();
    assert_eq!(got.id, "n1");
    assert_eq!(got.title, "");
    assert_eq!(got.content, "");
    assert_eq!(got.mode, "text");
    assert_eq!((got.pos_x, got.pos_y), (7, -9));
    assert_eq!((got.width, got.height), (300, 200));
    assert_eq!(got.opacity, 0.95f64.to_bits());
    assert!(got.is_open);
    assert!(!got.is_minimized);
    assert!(got.always_on_top);
    assert_eq!(got.created_at, "2024-01-01T00:00:00+00:00");
    assert_eq!(got.updated_at, "2024-01-01T00:00:00+00:00");
    assert_eq!(made.id, got.id);
    assert_eq!(made.opacity, got.opacity);
}

#[test]
fn created_note_takes_the_default_opacity_clamped() {
    let mut db = Database::new();
    let a = db.create_note_with("a".into(), "t1".into(), 0, 0, Some(0.5f64.to_bits())).unwrap();
    let b = db.create_note_with("b".into(), "t2".into(), 0, 0, Some(7.0f64.to_bits())).unwrap();
    let c = db.create_note_with("c".into(), "t3".into(), 0, 0, Some((-1.0f64).to_bits())).unwrap();
    assert_eq!(f64::from_bits(a.opacity), 0.5);
    assert_eq!(f64::from_bits(b.opacity), 1.0);
    assert_eq!(f64::from_bits(c.opacity), 0.3);
    assert_eq!(f64::from_bits(db.get_note("b").unwrap().opacity), 1.0);
}

#[test]
fn create_note_draws_a_uuid_and_reads_the_clock() {
    let mut db = Database::new();
    let a = db.create_note(1, 2, None).unwrap();
    let b = db.create_note(3, 4, None).unwrap();
    assert_ne!(a.id, b.id);
    for n in [&a, &b] {
        assert_eq!(n.id.len(), 36);
        for (i, c) in n.id.chars().enumerate() {
            if i == 8 || i == 13 || i == 18 || i == 23 {
                assert_eq!(c, '-');
            } else {
                assert!(c.is_ascii_digit() || ('a'..='f').contains(&c));
            }
        }
        assert!(uuid::Uuid::parse_str(&n.id).is_ok());
        assert!(chrono::DateTime::parse_from_rfc3339(&n.created_at).is_ok());
        assert_eq!(n.created_at, n.updated_at);
    }
    assert_eq!(db.get_all_notes().len(), 2);
    assert_eq!(db.get_note(&a.id).unwrap().pos_x, 1);
}

#[test]
fn create_note_succeeds_on_a_store_without_drawn_ids() {
    let mut db = Database::new();
    let n = db.create_note(5, 6, None).unwrap();
    assert_eq!((n.pos_x, n.pos_y, n.width, n.height), (5, 6, 300, 200));
    assert_eq!(f64::from_bits(n.opacity), 0.95);
    assert_eq!(db.get_all_notes().len(), 1);
    let mut db = Database::new();
    db.insert_note(note("not-a-drawn-id", "1")).unwrap();
    assert!(db.create_note(0, 0, Some(f64::NAN.to_bits())).is_ok());
    for n in db.get_all_notes() {
        let o = f64::from_bits(n.opacity);
        assert!((0.3..=1.0).contains(&o));
    }
}

#[test]
fn duplicate_id_is_refused_and_changes_nothing() {
    let mut db = Database::new();
    db.insert_note(note("same", "t1")).unwrap();
    let mut other = note("same", "t2");
    other.title = "other".to_string();
    assert_eq!(db.insert_note(other), Err(StoreError::DuplicateId));
    let all = db.get_all_notes();
    assert_eq!(all.len(), 1);
    assert_eq!(all[0].title, "");
    assert_eq!(all[0].created_at, "t1");
    assert!(db.create_note_with("same".into(), "t3".into(), 0, 0, None).is_err());
    assert_eq!(db.get_all_notes().len(), 1);
}

#[test]
fn store_error_messages() {
    assert_eq!(StoreError::DuplicateId.message(), "a note with this id is already stored");
    assert_eq!(StoreError::MissingSetting.message(), "no setting is stored under this key");
}

#[test]
fn notes_come_out_in_the_order_of_creation() {
    let mut db = Database::new();
    db.insert_note(note("c", "2024-03-01T00:00:00+00:00")).unwrap();
    db.insert_note(note("a", "2024-01-01T00:00:00+00:00")).unwrap();
    db.insert_note(note("d", "2024-04-01T00:00:00+00:00")).unwrap();
    db.insert_note(note("b", "2024-02-01T00:00:00+00:00")).unwrap();
    assert_eq!(ids(&db.get_all_notes()), ["a", "b", "c", "d"]);
}

#[test]
fn notes_created_at_the_same_time_keep_the_order_of_arrival() {
    let mut db = Database::new();
    db.insert_note(note("x", "t")).unwrap();
    db.insert_note(note("late", "u")).unwrap();
    db.insert_note(note("y", "t")).unwrap();
    db.insert_note(note("z", "t")).unwrap();
    db.insert_note(note("early", "s")).unwrap();
    assert_eq!(ids(&db.get_all_notes()), ["early", "x", "y", "z", "late"]);
}

#[test]
fn open_notes_are_the_notes_marked_open_in_order() {
    let mut db = Database::new();
    for (id, t) in [("a", "1"), ("b", "2"), ("c", "3"), ("d", "4")] {
        db.insert_note(note(id, t)).unwrap();
    }
    db.set_open_at("b", false, "9");
    db.set_open_at("d", false, "9");
    assert_eq!(ids(&db.get_open_notes()), ["a", "c"]);
    db.set_open_at("d", true, "10");
    assert_eq!(ids(&db.get_open_notes()), ["a", "c", "d"]);
    assert_eq!(ids(&db.get_all_notes()), ["a", "b", "c", "d"]);
    assert_eq!(db.get_note("b").unwrap().updated_at, "9");
    assert_eq!(db.get_note("d").unwrap().updated_at, "10");
    assert_eq!(db.get_note("a").unwrap().updated_at, "1");
}

#[test]
fn get_note_of_an_unknown_id_is_absent() {
    let mut db = Database::new();
    db.insert_note(note("a", "1")).unwrap();
    assert!(db.contains("a"));
    assert!(!db.contains("b"));
    assert!(db.get_note("b").is_none());
    assert!(db.get_note("").is_none());
    assert!(db.get_note("a").is_some());
}

#[test]
fn deleted_note_is_gone() {
    let mut db = Database::new();
    for (id, t) in [("a", "1"), ("b", "2"), ("c", "3")] {
        db.insert_note(note(id, t)).unwrap();
    }
    db.delete_note("b");
    assert_eq!(ids(&db.get_all_notes()), ["a", "c"]);
    assert!(db.get_note("b").is_none());
    assert!(db.get_note("a").is_some());
    assert!(db.get_note("c").is_some());
    db.delete_note("b");
    db.delete_note("nobody");
    assert_eq!(ids(&db.get_all_notes()), ["a", "c"]);
    db.insert_note(note("b", "0")).unwrap();
    assert_eq!(ids(&db.get_all_notes()), ["b", "a", "c"]);
}

#[test]
fn writes_change_only_the_fields_they_name() {
    let mut db = Database::new();
    db.insert_note(note("a", "1")).unwrap();
    db.insert_note(note("b", "2")).unwrap();
    let writes = vec![FieldWrite::Title("T".into()), FieldWrite::Width(640), FieldWrite::Height(480)];
    db.apply_writes("a", &writes, "5");
    let a = db.get_note("a").unwrap();
    assert_eq!(a.title, "T");
    assert_eq!(a.content, "");
    assert_eq!((a.width, a.height), (640, 480));
    assert_eq!((a.pos_x, a.pos_y), (10, 20));
    assert_eq!(a.updated_at, "5");
    assert_eq!(a.created_at, "1");
    let b = db.get_note("b").unwrap();
    assert_eq!(b.title, "");
    assert_eq!(b.updated_at, "2");
}

#[test]
fn no_write_leaves_the_time_of_update() {
    let mut db = Database::new();
    db.insert_note(note("a", "1")).unwrap();
    db.apply_writes("a", &Vec::new(), "5");
    assert_eq!(db.get_note("a").unwrap().updated_at, "1");
    db.apply_writes("nobody", &vec![FieldWrite::Title("T".into())], "5");
    assert_eq!(db.get_all_notes().len(), 1);
    assert_eq!(db.get_note("a").unwrap().title, "");
}

#[test]
fn field_writes_come_in_the_fixed_order() {
    let ws = field_writes(
        Some("t"),
        Some("c"),
        Some("todo"),
        Some(1),
        Some(2),
        Some(3),
        Some(4),
        Some(5),
        Some(false),
    );
    assert_eq!(ws.len(), 9);
    assert!(matches!(&ws[0], FieldWrite::Title(t) if t == "t"));
    assert!(matches!(&ws[1], FieldWrite::Content(t) if t == "c"));
    assert!(matches!(&ws[2], FieldWrite::Mode(t) if t == "todo"));
    assert!(matches!(ws[3], FieldWrite::PosX(1)));
    assert!(matches!(ws[4], FieldWrite::PosY(2)));
    assert!(matches!(ws[5], FieldWrite::Width(3)));
    assert!(matches!(ws[6], FieldWrite::Height(4)));
    assert!(matches!(ws[7], FieldWrite::Opacity(5)));
    assert!(matches!(ws[8], FieldWrite::AlwaysOnTop(false)));
}

#[test]
fn each_given_field_is_written_on_its_own() {
    let ws = field_writes(None, None, None, Some(1), None, None, None, None, None);
    assert_eq!(ws.len(), 1);
    assert!(matches!(ws[0], FieldWrite::PosX(1)));
    let ws = field_writes(None, None, None, None, Some(2), None, None, None, None);
    assert_eq!(ws.len(), 1);
    assert!(matches!(ws[0], FieldWrite::PosY(2)));
    let ws = field_writes(None, None, None, None, None, Some(3), None, None, None);
    assert_eq!(ws.len(), 1);
    assert!(matches!(ws[0], FieldWrite::Width(3)));
    let ws = field_writes(None, None, None, None, None, None, Some(4), None, None);
    assert_eq!(ws.len(), 1);
    assert!(matches!(ws[0], FieldWrite::Height(4)));
    assert!(field_writes(None, None, None, None, None, None, None, None, None).is_empty());
}

#[test]
fn a_lone_width_is_stored() {
    let mut db = Database::new();
    db.insert_note(note("a", "1")).unwrap();
    db.update_note("a", None, None, None, None, None, Some(400), None, None, None);
    let a = db.get_note("a").unwrap();
    assert_eq!((a.width, a.height), (400, 200));
    assert_eq!((a.pos_x, a.pos_y), (10, 20));
    assert_ne!(a.updated_at, "1");
    db.update_note("a", None, None, None, None, Some(-7), None, None, None, None);
    let a = db.get_note("a").unwrap();
    assert_eq!((a.pos_x, a.pos_y), (10, -7));
    assert_eq!((a.width, a.height), (400, 200));
}

#[test]
fn update_note_reads_the_clock_when_it_writes() {
    let mut db = Database::new();
    db.insert_note(note("a", "1")).unwrap();
    db.update_note("a", None, None, None, None, None, None, None, None, None);
    assert_eq!(db.get_note("a").unwrap().updated_at, "1");
    db.update_note("a", None, None, None, Some(5), None, None, None, None, None);
    let a = db.get_note("a").unwrap();
    assert_eq!(a.pos_x, 5);
    assert!(chrono::DateTime::parse_from_rfc3339(&a.updated_at).is_ok());
    db.update_note("a", Some("hello"), None, None, None, None, None, None, None, Some(false));
    let a = db.get_note("a").unwrap();
    assert_eq!(a.title, "hello");
    assert!(!a.always_on_top);
    assert!(chrono::DateTime::parse_from_rfc3339(&a.updated_at).is_ok());
    assert_eq!(a.created_at, "1");
}

#[test]
fn the_store_takes_any_mode_and_size() {
    let mut db = Database::new();
    db.insert_note(note("a", "1")).unwrap();
    db.update_note("a", None, None, Some("weird"), None, None, Some(1), Some(2), Some(9.0f64.to_bits()), None);
    let a = db.get_note("a").unwrap();
    assert_eq!(a.mode, "weird");
    assert_eq!((a.width, a.height), (1, 2));
    assert_eq!(f64::from_bits(a.opacity), 1.0);
}

#[test]
fn the_store_keeps_every_opacity_in_range() {
    let mut db = Database::new();
    let mut loaded = note("a", "1");
    loaded.opacity = 7.5f64.to_bits();
    db.insert_note(loaded).unwrap();
    assert_eq!(f64::from_bits(db.get_note("a").unwrap().opacity), 1.0);
    let mut loaded = note("b", "2");
    loaded.opacity = f64::NAN.to_bits();
    db.insert_note(loaded).unwrap();
    assert_eq!(f64::from_bits(db.get_note("b").unwrap().opacity), 1.0);
    db.apply_writes("a", &vec![FieldWrite::Opacity(0.01f64.to_bits())], "3");
    assert_eq!(f64::from_bits(db.get_note("a").unwrap().opacity), 0.3);
    db.set_all_opacity_at((-2.0f64).to_bits(), "4");
    db.update_note("b", None, None, None, None, None, None, None, Some(0.6f64.to_bits()), None);
    let seen: Vec<f64> = db.get_all_notes().iter().map(|n| f64::from_bits(n.opacity)).collect();
    assert_eq!(seen, [0.3, 0.6]);
}

#[test]
fn two_updates_of_disjoint_fields_both_apply() {
    for title_first in [true, false] {
        let mut db = Database::new();
        db.insert_note(note("a", "1")).unwrap();
        let title = vec![FieldWrite::Title("T".into())];
        let content = vec![FieldWrite::Content("C".into())];
        if title_first {
            db.apply_writes("a", &title, "2");
            db.apply_writes("a", &content, "3");
        } else {
            db.apply_writes("a", &content, "2");
            db.apply_writes("a", &title, "3");
        }
        let a = db.get_note("a").unwrap();
        assert_eq!(a.title, "T");
        assert_eq!(a.content, "C");
        assert_eq!(a.updated_at, "3");
    }
}

#[test]
fn open_and_close_mark_the_note() {
    let mut db = Database::new();
    db.insert_note(note("a", "1")).unwrap();
    db.close_note("a");
    let a = db.get_note("a").unwrap();
    assert!(!a.is_open);
    assert!(chrono::DateTime::parse_from_rfc3339(&a.updated_at).is_ok());
    db.open_note("a");
    assert!(db.get_note("a").unwrap().is_open);
    db.open_note("nobody");
    db.close_note("nobody");
    assert_eq!(db.get_all_notes().len(), 1);
}

#[test]
fn settings_are_stored_by_key() {
    let mut db = Database::new();
    assert_eq!(db.get_setting("font"), Err(StoreError::MissingSetting));
    db.set_setting("font", "mono");
    assert_eq!(db.get_setting("font"), Ok("mono".to_string()));
    db.set_setting("theme", "dark");
    db.set_setting("font", "serif");
    assert_eq!(db.get_setting("theme"), Ok("dark".to_string()));
    assert_eq!(db.get_setting("font"), Ok("serif".to_string()));
    assert_eq!(db.get_setting("default_opacity"), Ok("0.95".to_string()));
    assert_eq!(db.get_setting(""), Err(StoreError::MissingSetting));
}

#[test]
fn settings_as_one_value() {
    let mut db = Database::new();
    let s = db.get_settings(None);
    assert_eq!(s.theme, "light");
    assert_eq!(f64::from_bits(s.default_opacity), 0.95);
    db.set_setting("theme", "dark");
    let s = db.get_settings(Some(0.5f64.to_bits()));
    assert_eq!(s.theme, "dark");
    assert_eq!(f64::from_bits(s.default_opacity), 0.5);
    assert_eq!(f64::from_bits(db.get_settings(Some(3.0f64.to_bits())).default_opacity), 1.0);
    assert_eq!(f64::from_bits(db.get_settings(Some(f64::NAN.to_bits())).default_opacity), 1.0);
}

#[test]
fn all_opacity_is_set_on_every_note() {
    let mut db = Database::new();
    db.insert_note(note("a", "1")).unwrap();
    db.insert_note(note("b", "2")).unwrap();
    db.set_all_opacity_at(0.4f64.to_bits(), "7");
    for n in db.get_all_notes() {
        assert_eq!(f64::from_bits(n.opacity), 0.4);
        assert_eq!(n.updated_at, "7");
    }
    db.set_all_opacity(0.6f64.to_bits());
    for n in db.get_all_notes() {
        assert_eq!(f64::from_bits(n.opacity), 0.6);
        assert!(chrono::DateTime::parse_from_rfc3339(&n.updated_at).is_ok());
    }
}

#[test]
fn rows_hold_flags_as_integers() {
    let row = NoteRow {
        id: "a".into(),
        title: "t".into(),
        content: "c".into(),
        mode: "todo".into(),
        pos_x: 1,
        pos_y: 2,
        width: 3,
        height: 4,
        opacity: 0.5f64.to_bits(),
        is_open: 1,
        is_minimized: 0,
        always_on_top: 2,
        created_at: "x".into(),
        updated_at: "y".into(),
    };
    let n = Note::from_row(row);
    assert!(n.is_open);
    assert!(!n.is_minimized);
    assert!(!n.always_on_top);
    assert_eq!(n.mode, "todo");
    assert_eq!((n.pos_x, n.pos_y, n.width, n.height), (1, 2, 3, 4));
    let back = n.to_row();
    assert_eq!((back.is_open, back.is_minimized, back.always_on_top), (1, 0, 0));
    assert_eq!(back.id, "a");
    assert_eq!(back.updated_at, "y");
    let again = Note::from_row(back);
    assert_eq!(again.title, n.title);
    assert_eq!(again.is_open, n.is_open);
    assert_eq!(again.always_on_top, n.always_on_top);
}

#[test]
fn text_order_is_the_order_of_the_bytes() {
    let samples = [
        "", "a", "ab", "b", "abc", "abd", "B", "2024-01-01T00:00:00+00:00",
        "2024-01-01T00:00:00.5+00:00", "2024-01-02T00:00:00+00:00", "é", "z", "日本", "~",
    ];
    for a in samples {
        for b in samples {
            assert_eq!(text_at_or_before(a, b), a <= b);
        }
    }
}

#[test]
fn default_opacity_is_read_from_the_setting() {
    let parse = |text: &str| text.parse::<f64>().ok().map(f64::to_bits);
    let mut db = Database::new();
    assert_eq!(db.default_opacity(parse), Some(0.95f64.to_bits()));
    db.set_setting("default_opacity", "0.5");
    assert_eq!(db.default_opacity(parse), Some(0.5f64.to_bits()));
    db.set_setting("default_opacity", "half");
    assert_eq!(db.default_opacity(parse), None);
    let unreadable = db.default_opacity(parse);
    let n = db.create_note_with("a".into(), "t".into(), 0, 0, unreadable).unwrap();
    assert_eq!(f64::from_bits(n.opacity), 0.95);
}
