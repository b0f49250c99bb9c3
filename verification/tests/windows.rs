use notary::db::Database;
use notary::hotkeys::{
    on_new_note, register_hotkeys, toggle_visibility, Hotkey, HotkeyAction, Visibility,
};
use notary::note::Note;
use notary::note_window::{
    close_all_note_windows, create_note_window, has_note_prefix, note_id_of, note_url,
    restore_open_notes, show_all_note_windows, sweep_note_windows, window_label, LiveWindow, Sweep,
    WindowSet,
};

fn window(label: &str, visible: bool, minimized: bool) -> LiveWindow {
    LiveWindow { label: label.to_string(), visible, minimized, always_on_top: false }
}

fn state(windows: &WindowSet) -> Vec<(String, bool, bool)> {
    windows.windows().into_iter().map(|w| (w.label, w.visible, w.minimized)).collect()
}

fn note(id: &str, created_at: &str) -> Note {
    Note::fresh(id.to_string(), created_at.to_string(), 10, 20, None)
}

#[test]
fn labels_and_addresses_are_made_from_the_id() {
    assert_eq!(window_label("abc"), "note-abc");
    assert_eq!(window_label(""), "note-");
    assert_eq!(note_url("abc"), "/#/note/abc");
}

#[test]
fn note_labels_are_told_by_their_prefix() {
    assert!(has_note_prefix("note-abc"));
    assert!(has_note_prefix("note-"));
    assert!(!has_note_prefix("note"));
    assert!(!has_note_prefix("main"));
    assert!(!has_note_prefix(""));
    assert!(!has_note_prefix("Note-abc"));
    assert!(!has_note_prefix("xnote-abc"));
    assert!(!has_note_prefix("nöte-abc"));
}

#[test]
fn the_id_is_the_label_without_the_prefix() {
    assert_eq!(note_id_of("note-abc"), "abc");
    assert_eq!(note_id_of("note-67e55044-10b1-426f-9247-bb680e5fe0c8"), "67e55044-10b1-426f-9247-bb680e5fe0c8");
    assert_eq!(note_id_of("main"), "main");
    assert_eq!(note_id_of("note-note-x"), "x");
    assert_eq!(note_id_of("nnote-ote-"), "note-");
    assert_eq!(note_id_of(""), "");
}

#[test]
fn label_and_id_round_trip_for_drawn_ids() {
    let mut db = Database::new();
    let n = db.create_note(0, 0, None).unwrap();
    assert_eq!(note_id_of(&window_label(&n.id)), n.id);
}

#[test]
fn window_set_refuses_a_second_window_with_a_label() {
    let mut ws = WindowSet::new();
    assert_eq!(ws.len(), 0);
    assert!(ws.add(window("note-a", true, false)));
    assert!(ws.add(window("main", true, false)));
    assert!(!ws.add(window("note-a", false, true)));
    assert_eq!(ws.len(), 2);
    assert!(ws.contains("note-a"));
    assert!(!ws.contains("note-b"));
    assert_eq!(state(&ws), [("note-a".to_string(), true, false), ("main".to_string(), true, false)]);
    assert!(ws.remove("note-a"));
    assert!(!ws.remove("note-a"));
    assert_eq!(state(&ws), [("main".to_string(), true, false)]);
}

#[test]
fn a_window_is_built_once_for_a_note() {
    let mut ws = WindowSet::new();
    let mut n = note("abc", "t");
    n.pos_x = -5;
    n.pos_y = 6;
    n.width = 400;
    n.height = 500;
    n.always_on_top = false;
    let spec = create_note_window(&mut ws, &n).unwrap();
    assert_eq!(spec.label, "note-abc");
    assert_eq!(spec.url, "/#/note/abc");
    assert_eq!(spec.title, "HoverThought HUD");
    assert!(!spec.decorations);
    assert!(spec.transparent);
    assert!(!spec.always_on_top);
    assert_eq!((spec.x, spec.y, spec.width, spec.height), (-5, 6, 400, 500));
    assert_eq!((spec.min_width, spec.min_height), (200, 150));
    assert!(spec.visible);
    assert!(ws.contains("note-abc"));
    assert!(create_note_window(&mut ws, &n).is_none());
    assert_eq!(ws.len(), 1);
    let w = &ws.windows()[0];
    assert!(w.visible && !w.minimized && !w.always_on_top);
}

#[test]
fn restore_builds_a_window_for_each_open_note() {
    let mut db = Database::new();
    for (id, t) in [("a", "1"), ("b", "2"), ("c", "3")] {
        db.insert_note(note(id, t)).unwrap();
    }
    db.set_open_at("b", false, "4");
    let mut ws = WindowSet::new();
    ws.add(window("note-c", false, false));
    let specs = restore_open_notes(&mut ws, &db);
    assert_eq!(specs.len(), 1);
    assert_eq!(specs[0].label, "note-a");
    assert!(ws.contains("note-a"));
    assert!(!ws.contains("note-b"));
    assert!(ws.contains("note-c"));
    assert_eq!(ws.len(), 2);
    assert!(restore_open_notes(&mut ws, &db).is_empty());
}

#[test]
fn hiding_touches_only_note_windows() {
    let mut ws = WindowSet::new();
    ws.add(window("note-a", true, true));
    ws.add(window("main", true, false));
    ws.add(window("note-b", true, false));
    let labels = close_all_note_windows(&mut ws);
    assert_eq!(labels, ["note-a", "note-b"]);
    assert_eq!(
        state(&ws),
        [
            ("note-a".to_string(), false, true),
            ("main".to_string(), true, false),
            ("note-b".to_string(), false, false)
        ]
    );
}

#[test]
fn showing_brings_note_windows_back() {
    let mut ws = WindowSet::new();
    ws.add(window("note-a", false, true));
    ws.add(window("main", false, true));
    let labels = show_all_note_windows(&mut ws);
    assert_eq!(labels, ["note-a"]);
    assert_eq!(state(&ws), [("note-a".to_string(), true, false), ("main".to_string(), false, true)]);
}

#[test]
fn minimizing_keeps_visibility() {
    let mut ws = WindowSet::new();
    ws.add(window("note-a", true, false));
    ws.add(window("note-b", false, false));
    let labels = sweep_note_windows(&mut ws, Sweep::Minimize);
    assert_eq!(labels, ["note-a", "note-b"]);
    assert_eq!(state(&ws), [("note-a".to_string(), true, true), ("note-b".to_string(), false, true)]);
}

#[test]
fn the_controller_starts_visible() {
    assert_eq!(Visibility::initial(), Visibility::Visible);
}

#[test]
fn toggle_hides_then_shows() {
    let mut ws = WindowSet::new();
    ws.add(window("note-a", true, false));
    ws.add(window("main", true, false));
    let first = toggle_visibility(Visibility::Visible, &mut ws);
    assert_eq!(first.state, Visibility::Hidden);
    assert_eq!(first.sweep, Sweep::Hide);
    assert_eq!(first.labels, ["note-a"]);
    assert_eq!(state(&ws), [("note-a".to_string(), false, false), ("main".to_string(), true, false)]);
    let second = toggle_visibility(first.state, &mut ws);
    assert_eq!(second.state, Visibility::Visible);
    assert_eq!(second.sweep, Sweep::Show);
    assert_eq!(second.labels, ["note-a"]);
    assert_eq!(state(&ws), [("note-a".to_string(), true, false), ("main".to_string(), true, false)]);
}

#[test]
fn two_toggles_restore_the_visibility_of_every_window() {
    for start in [Visibility::Visible, Visibility::Hidden] {
        let shown = start == Visibility::Visible;
        let mut ws = WindowSet::new();
        ws.add(window("note-a", shown, false));
        ws.add(window("other", !shown, false));
        ws.add(window("note-b", shown, false));
        let before = state(&ws);
        let once = toggle_visibility(start, &mut ws);
        let twice = toggle_visibility(once.state, &mut ws);
        assert_eq!(twice.state, start);
        let after = state(&ws);
        for (b, a) in before.iter().zip(after.iter()) {
            assert_eq!(b.0, a.0);
            assert_eq!(b.1, a.1);
        }
    }
}

#[test]
fn a_window_made_while_hidden_is_hidden_after_two_toggles() {
    let mut ws = WindowSet::new();
    ws.add(window("note-old", false, false));
    ws.add(window("note-new", true, false));
    let once = toggle_visibility(Visibility::Hidden, &mut ws);
    let twice = toggle_visibility(once.state, &mut ws);
    assert_eq!(twice.state, Visibility::Hidden);
    assert_eq!(state(&ws), [("note-old".to_string(), false, false), ("note-new".to_string(), false, false)]);
}

#[test]
fn toggling_does_not_touch_the_store() {
    let mut db = Database::new();
    db.insert_note(note("a", "1")).unwrap();
    let mut ws = WindowSet::new();
    restore_open_notes(&mut ws, &db);
    toggle_visibility(Visibility::Visible, &mut ws);
    let a = db.get_note("a").unwrap();
    assert!(a.is_open);
    assert_eq!(a.updated_at, "1");
    assert_eq!(ws.len(), 1);
}

#[test]
fn the_new_note_hotkey_makes_a_note_at_the_default_place() {
    let mut db = Database::new();
    let mut ws = WindowSet::new();
    let (n, spec) = on_new_note(&mut db, &mut ws, Some(0.5f64.to_bits())).unwrap();
    assert_eq!((n.pos_x, n.pos_y), (100, 100));
    assert_eq!(f64::from_bits(n.opacity), 0.5);
    let spec = spec.unwrap();
    assert_eq!(spec.label, format!("note-{}", n.id));
    assert!(ws.contains(&spec.label));
    assert_eq!(db.get_all_notes().len(), 1);
}

#[test]
fn the_two_hotkeys() {
    assert_eq!(
        register_hotkeys(),
        [
            Hotkey { control: true, shift: true, key: 'N', action: HotkeyAction::NewNote },
            Hotkey { control: true, shift: true, key: 'H', action: HotkeyAction::ToggleVisibility },
        ]
    );
}
