use notary::commands::{
    close_note, create_note, delete_note, get_all_notes, get_note, get_settings,
    minimize_all_notes, mode_is_valid, open_note, set_all_opacity, set_always_on_top,
    set_default_opacity, set_opacity, set_theme, show_all_notes, update_note, validate_update,
};
use notary::db::Database;
use notary::note::{FieldWrite, Note};
use notary::note_window::{LiveWindow, WindowSet};

fn note(id: &str, created_at: &str) -> Note {
    Note::fresh(id.to_string(), created_at.to_string(), 10, 20, None)
}

fn window(label: &str) -> LiveWindow {
    LiveWindow { label: label.to_string(), visible: true, minimized: false, always_on_top: true }
}

#[test]
fn create_note_defaults_to_100_100() {
    let mut db = Database::new();
    let mut ws = WindowSet::new();
    let (n, spec) = create_note(&mut db, &mut ws, None, None, None).unwrap();
    assert_eq!((n.pos_x, n.pos_y), (100, 100));
    let (m, _) = create_note(&mut db, &mut ws, Some(5), None, None).unwrap();
    assert_eq!((m.pos_x, m.pos_y), (5, 100));
    let (k, _) = create_note(&mut db, &mut ws, Some(-1), Some(-2), None).unwrap();
    assert_eq!((k.pos_x, k.pos_y), (-1, -2));
    let spec = spec.unwrap();
    assert_eq!(spec.label, format!("note-{}", n.id));
    assert_eq!((spec.x, spec.y, spec.width, spec.height), (100, 100, 300, 200));
    assert_eq!(ws.len(), 3);
    assert_eq!(get_all_notes(&db).len(), 3);
    let got = get_note(&db, &n.id).unwrap();
    assert_eq!(got.title, "");
    assert_eq!(got.mode, "text");
    assert!(got.is_open);
    assert!(get_note(&db, "nobody").is_none());
}

#[test]
fn only_text_and_todo_are_modes() {
    assert!(mode_is_valid("text"));
    assert!(mode_is_valid("todo"));
    assert!(!mode_is_valid(""));
    assert!(!mode_is_valid("Text"));
    assert!(!mode_is_valid("text "));
    assert!(!mode_is_valid("markdown"));
}

#[test]
fn update_with_an_invalid_mode_is_rejected_and_changes_nothing() {
    let mut db = Database::new();
    db.insert_note(note("a", "1")).unwrap();
    let r = update_note(
        &mut db,
        "a",
        Some("T"),
        Some("C"),
        Some("markdown"),
        Some(1),
        Some(2),
        Some(900),
        Some(900),
        Some(0.5f64.to_bits()),
        Some(false),
    );
    assert_eq!(r, Err("Invalid mode: markdown. Must be \"text\" or \"todo\"".to_string()));
    let a = get_note(&db, "a").unwrap();
    assert_eq!(a.mode, "text");
    assert_eq!(a.title, "");
    assert_eq!(a.content, "");
    assert_eq!((a.pos_x, a.pos_y, a.width, a.height), (10, 20, 300, 200));
    assert_eq!(f64::from_bits(a.opacity), 0.95);
    assert!(a.always_on_top);
    assert_eq!(a.updated_at, "1");
    let r = update_note(&mut db, "a", None, None, Some(""), None, None, None, None, None, None);
    assert_eq!(r, Err("Invalid mode: . Must be \"text\" or \"todo\"".to_string()));
}

#[test]
fn update_with_a_valid_mode_is_stored() {
    let mut db = Database::new();
    db.insert_note(note("a", "1")).unwrap();
    assert_eq!(update_note(&mut db, "a", None, None, Some("todo"), None, None, None, None, None, None), Ok(()));
    assert_eq!(get_note(&db, "a").unwrap().mode, "todo");
    assert_eq!(update_note(&mut db, "a", None, None, Some("text"), None, None, None, None, None, None), Ok(()));
    assert_eq!(get_note(&db, "a").unwrap().mode, "text");
}

#[test]
fn update_clamps_the_opacity() {
    let mut db = Database::new();
    db.insert_note(note("a", "1")).unwrap();
    for (asked, stored) in [(0.0, 0.3), (0.29, 0.3), (0.3, 0.3), (0.65, 0.65), (1.0, 1.0), (1.01, 1.0), (-4.0, 0.3), (f64::INFINITY, 1.0)] {
        let asked: f64 = asked;
        update_note(&mut db, "a", None, None, None, None, None, None, None, Some(asked.to_bits()), None).unwrap();
        assert_eq!(f64::from_bits(get_note(&db, "a").unwrap().opacity), stored);
        assert_eq!(f64::from_bits(get_note(&db, "a").unwrap().opacity), asked.clamp(0.3, 1.0));
    }
}

#[test]
fn update_raises_width_and_height_to_their_least() {
    let mut db = Database::new();
    db.insert_note(note("a", "1")).unwrap();
    for (w, h, sw, sh) in [
        (0, 0, 200, 150),
        (199, 149, 200, 150),
        (200, 150, 200, 150),
        (201, 151, 201, 151),
        (-50, 1000, 200, 1000),
        (i32::MIN, i32::MAX, 200, i32::MAX),
        (1000, 10, 1000, 150),
    ] {
        update_note(&mut db, "a", None, None, None, None, None, Some(w), Some(h), None, None).unwrap();
        let a = get_note(&db, "a").unwrap();
        assert_eq!((a.width, a.height), (sw, sh));
        assert!(a.width >= 200 && a.height >= 150);
    }
    update_note(&mut db, "a", None, None, None, None, None, Some(5), None, None, None).unwrap();
    let a = get_note(&db, "a").unwrap();
    assert_eq!((a.width, a.height), (200, 150));
    update_note(&mut db, "a", None, None, None, None, None, Some(400), None, None, None).unwrap();
    update_note(&mut db, "a", None, None, None, None, None, None, Some(7), None, None).unwrap();
    let a = get_note(&db, "a").unwrap();
    assert_eq!((a.width, a.height), (400, 150));
    update_note(&mut db, "a", None, None, None, Some(-3), None, None, None, None, None).unwrap();
    let a = get_note(&db, "a").unwrap();
    assert_eq!((a.pos_x, a.pos_y), (-3, 20));
}

#[test]
fn validate_update_lists_the_checked_writes() {
    let ws = validate_update(Some("t"), None, Some("todo"), None, None, Some(1), Some(2), Some(3.0f64.to_bits()), None).unwrap();
    assert_eq!(ws.len(), 5);
    assert!(matches!(&ws[0], FieldWrite::Title(t) if t == "t"));
    assert!(matches!(&ws[1], FieldWrite::Mode(t) if t == "todo"));
    assert!(matches!(ws[2], FieldWrite::Width(200)));
    assert!(matches!(ws[3], FieldWrite::Height(150)));
    assert!(matches!(ws[4], FieldWrite::Opacity(o) if o == 1.0f64.to_bits()));
    let e = validate_update(None, None, Some("x"), None, None, None, None, None, None).unwrap_err();
    assert_eq!(e, "Invalid mode: x. Must be \"text\" or \"todo\"");
}

#[test]
fn update_of_an_unknown_note_is_not_found() {
    let mut db = Database::new();
    db.insert_note(note("a", "1")).unwrap();
    let r = update_note(&mut db, "nobody", Some("T"), None, None, None, None, None, None, None, None);
    assert_eq!(r, Err("Note not found".to_string()));
    let r = update_note(&mut db, "nobody", None, None, Some("todo"), None, None, None, None, None, None);
    assert_eq!(r, Err("Note not found".to_string()));
    let r = update_note(&mut db, "nobody", None, None, Some("bad"), None, None, None, None, None, None);
    assert_eq!(r, Err("Invalid mode: bad. Must be \"text\" or \"todo\"".to_string()));
    assert_eq!(get_all_notes(&db).len(), 1);
    let a = get_note(&db, "a").unwrap();
    assert_eq!(a.title, "");
    assert_eq!(a.updated_at, "1");
}

#[test]
fn update_never_stores_what_is_no_number() {
    let mut db = Database::new();
    db.insert_note(note("a", "1")).unwrap();
    for asked in [f64::NAN, -f64::NAN, f64::INFINITY, f64::NEG_INFINITY] {
        update_note(&mut db, "a", None, None, None, None, None, None, None, Some(asked.to_bits()), None).unwrap();
        let o = f64::from_bits(get_note(&db, "a").unwrap().opacity);
        assert!(!o.is_nan());
        assert!((0.3..=1.0).contains(&o));
    }
    update_note(&mut db, "a", None, None, None, None, None, None, None, Some(f64::NAN.to_bits()), None).unwrap();
    assert_eq!(f64::from_bits(get_note(&db, "a").unwrap().opacity), 1.0);
}

#[test]
fn close_marks_the_note_and_takes_its_window() {
    let mut db = Database::new();
    db.insert_note(note("a", "1")).unwrap();
    let mut ws = WindowSet::new();
    ws.add(window("note-a"));
    ws.add(window("note-b"));
    assert_eq!(close_note(&mut db, &mut ws, "a"), Some("note-a".to_string()));
    assert!(!get_note(&db, "a").unwrap().is_open);
    assert!(!ws.contains("note-a"));
    assert!(ws.contains("note-b"));
    assert_eq!(close_note(&mut db, &mut ws, "a"), None);
    assert_eq!(close_note(&mut db, &mut ws, "nobody"), None);
    assert_eq!(get_all_notes(&db).len(), 1);
}

#[test]
fn delete_removes_the_note_and_takes_its_window() {
    let mut db = Database::new();
    db.insert_note(note("a", "1")).unwrap();
    db.insert_note(note("b", "2")).unwrap();
    let mut ws = WindowSet::new();
    ws.add(window("note-a"));
    assert_eq!(delete_note(&mut db, &mut ws, "a"), Some("note-a".to_string()));
    assert!(get_note(&db, "a").is_none());
    let all = get_all_notes(&db);
    assert_eq!(all.len(), 1);
    assert_eq!(all[0].id, "b");
    assert_eq!(ws.len(), 0);
    assert_eq!(delete_note(&mut db, &mut ws, "b"), None);
    assert!(get_all_notes(&db).is_empty());
}

#[test]
fn open_marks_the_note_and_sees_to_its_window() {
    let mut db = Database::new();
    db.insert_note(note("a", "1")).unwrap();
    db.set_open_at("a", false, "2");
    let mut ws = WindowSet::new();
    let (n, spec) = open_note(&mut db, &mut ws, "a").unwrap();
    assert!(n.is_open);
    assert_eq!(n.id, "a");
    assert_eq!(spec.unwrap().label, "note-a");
    assert!(get_note(&db, "a").unwrap().is_open);
    assert!(ws.contains("note-a"));
    let (_, again) = open_note(&mut db, &mut ws, "a").unwrap();
    assert!(again.is_none());
    assert_eq!(ws.len(), 1);
}

#[test]
fn open_of_an_unknown_note_is_an_error() {
    let mut db = Database::new();
    db.insert_note(note("a", "1")).unwrap();
    let mut ws = WindowSet::new();
    let e = open_note(&mut db, &mut ws, "nobody").unwrap_err();
    assert_eq!(e, "Note not found");
    assert_eq!(ws.len(), 0);
    assert_eq!(get_all_notes(&db).len(), 1);
    assert_eq!(get_note(&db, "a").unwrap().updated_at, "1");
}

#[test]
fn set_opacity_finds_the_note_by_the_window_label() {
    let mut db = Database::new();
    db.insert_note(note("a", "1")).unwrap();
    db.insert_note(note("b", "2")).unwrap();
    assert_eq!(set_opacity(&mut db, "note-a", 0.1f64.to_bits()), Ok(0.3f64.to_bits()));
    assert_eq!(f64::from_bits(get_note(&db, "a").unwrap().opacity), 0.3);
    assert_eq!(f64::from_bits(get_note(&db, "b").unwrap().opacity), 0.95);
    assert_eq!(get_note(&db, "b").unwrap().updated_at, "2");
    assert_eq!(set_opacity(&mut db, "note-b", 0.8f64.to_bits()), Ok(0.8f64.to_bits()));
    assert_eq!(f64::from_bits(get_note(&db, "b").unwrap().opacity), 0.8);
    assert_eq!(set_opacity(&mut db, "note-b", f64::NAN.to_bits()), Ok(1.0f64.to_bits()));
    assert_eq!(set_opacity(&mut db, "main", 2.0f64.to_bits()), Err("Note not found".to_string()));
    assert_eq!(set_opacity(&mut db, "note-c", 2.0f64.to_bits()), Err("Note not found".to_string()));
    assert_eq!(f64::from_bits(get_note(&db, "a").unwrap().opacity), 0.3);
}

#[test]
fn set_always_on_top_is_recorded_in_note_and_window() {
    let mut db = Database::new();
    db.insert_note(note("a", "1")).unwrap();
    let mut ws = WindowSet::new();
    ws.add(window("note-a"));
    ws.add(window("note-b"));
    assert_eq!(set_always_on_top(&mut db, &mut ws, "note-a", false), Ok(()));
    assert!(!get_note(&db, "a").unwrap().always_on_top);
    assert!(!ws.windows()[0].always_on_top);
    assert_eq!(set_always_on_top(&mut db, &mut ws, "note-a", true), Ok(()));
    assert!(get_note(&db, "a").unwrap().always_on_top);
    assert!(ws.windows()[0].always_on_top);
    assert_eq!(
        set_always_on_top(&mut db, &mut ws, "note-b", false),
        Err("Note not found".to_string())
    );
    assert!(!ws.windows()[1].always_on_top);
    assert_eq!(get_all_notes(&db).len(), 1);
}

#[test]
fn theme_and_default_opacity_are_settings() {
    let mut db = Database::new();
    set_theme(&mut db, "dark");
    let render = |bits: u64| f64::from_bits(bits).to_string();
    assert_eq!(f64::from_bits(set_default_opacity(&mut db, 0.5f64.to_bits(), render)), 0.5);
    assert_eq!(db.get_setting("theme"), Ok("dark".to_string()));
    assert_eq!(db.get_setting("default_opacity"), Ok("0.5".to_string()));
    assert_eq!(f64::from_bits(set_default_opacity(&mut db, 4.0f64.to_bits(), render)), 1.0);
    assert_eq!(db.get_setting("default_opacity"), Ok("1".to_string()));
    assert_eq!(f64::from_bits(set_default_opacity(&mut db, 0.0f64.to_bits(), render)), 0.3);
    assert_eq!(db.get_setting("default_opacity"), Ok("0.3".to_string()));
    assert_eq!(f64::from_bits(set_default_opacity(&mut db, f64::NAN.to_bits(), render)), 1.0);
    assert_eq!(db.get_setting("default_opacity"), Ok("1".to_string()));
    set_default_opacity(&mut db, 0.5f64.to_bits(), render);
    let s = get_settings(&db, Some(0.5f64.to_bits()));
    assert_eq!(s.theme, "dark");
    assert_eq!(f64::from_bits(s.default_opacity), 0.5);
    let s = get_settings(&db, None);
    assert_eq!(f64::from_bits(s.default_opacity), 0.95);
}

#[test]
fn bulk_sweeps_return_the_note_windows() {
    let mut ws = WindowSet::new();
    ws.add(window("note-a"));
    ws.add(window("main"));
    assert_eq!(minimize_all_notes(&mut ws), ["note-a"]);
    let w = ws.windows();
    assert!(w[0].minimized && w[0].visible);
    assert!(!w[1].minimized);
    assert_eq!(show_all_notes(&mut ws), ["note-a"]);
    let w = ws.windows();
    assert!(!w[0].minimized && w[0].visible);
}

#[test]
fn set_all_opacity_stores_the_clamped_value_and_names_the_live_windows() {
    let mut db = Database::new();
    for (id, t) in [("a", "1"), ("b", "2"), ("c", "3")] {
        db.insert_note(note(id, t)).unwrap();
    }
    let mut ws = WindowSet::new();
    ws.add(window("note-c"));
    ws.add(window("main"));
    ws.add(window("note-a"));
    ws.add(window("note-zzz"));
    let notice = set_all_opacity(&mut db, &ws, 1.7f64.to_bits());
    assert_eq!(f64::from_bits(notice.opacity), 1.0);
    assert_eq!(notice.labels, ["note-a", "note-c"]);
    for n in get_all_notes(&db) {
        assert_eq!(f64::from_bits(n.opacity), 1.0);
    }
    let notice = set_all_opacity(&mut db, &WindowSet::new(), 0.45f64.to_bits());
    assert_eq!(f64::from_bits(notice.opacity), 0.45);
    assert!(notice.labels.is_empty());
    assert_eq!(f64::from_bits(get_note(&db, "b").unwrap().opacity), 0.45);
}
