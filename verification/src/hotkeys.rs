//! The show/hide controller behind the global hotkeys.
//!
//! The controller is one flag for the whole process. It never touches the
//! store: a toggle is a single sweep over the windows that are live at that
//! moment.

use crate::db::{has_note, Database, StoreError};
use crate::ident::is_uuid_text;
use crate::note::{fresh_note, Note};
use crate::note_window::{
    all_swept, create_note_window, distinct_labels, ensured, has_window, is_note_label, label_of,
    note_labels, sweep_note_windows, texts, window_spec_for, LiveWindowView, Sweep, WindowSet,
    WindowSpec,
};
use vstd::prelude::*;

verus! {

/// Where a note goes that is made by hotkey.
pub const HOTKEY_NOTE_X: i32 = 100;

/// Where a note goes that is made by hotkey.
pub const HOTKEY_NOTE_Y: i32 = 100;

/// What a global hotkey asks for.
#[derive(Debug, Clone, Copy, PartialEq, Eq, Structural)]
pub enum HotkeyAction {
    /// Make a note.
    NewNote,
    /// Hide all notes, or show them again.
    ToggleVisibility,
}

/// A global hotkey: a letter key, pressed together with the modifiers that
/// are set.
#[derive(Debug, Clone, Copy, PartialEq, Eq, Structural)]
pub struct Hotkey {
    pub control: bool,
    pub shift: bool,
    pub key: char,
    pub action: HotkeyAction,
}

/// The hotkeys of the application: Ctrl+Shift+N makes a note, Ctrl+Shift+H
/// hides all notes or shows them again. The caller is to register them with
/// the system, in this order.
pub fn register_hotkeys() -> (r: Vec<Hotkey>)
    ensures
        r@ == seq![
            (Hotkey { control: true, shift: true, key: 'N', action: HotkeyAction::NewNote }),
            (Hotkey { control: true, shift: true, key: 'H', action: HotkeyAction::ToggleVisibility }),
        ],
{
    let mut r: Vec<Hotkey> = Vec::new();
    r.push(Hotkey { control: true, shift: true, key: 'N', action: HotkeyAction::NewNote });
    r.push(Hotkey { control: true, shift: true, key: 'H', action: HotkeyAction::ToggleVisibility });
    assert(r@ =~= seq![
        (Hotkey { control: true, shift: true, key: 'N', action: HotkeyAction::NewNote }),
        (Hotkey { control: true, shift: true, key: 'H', action: HotkeyAction::ToggleVisibility }),
    ]);
    r
}

/// Whether the note windows are shown or hidden as a whole.
#[derive(Debug, Clone, Copy, PartialEq, Eq, Structural)]
pub enum Visibility {
    Visible,
    Hidden,
}

impl Visibility {
    /// The state in which a process starts.
    pub fn initial() -> (v: Visibility)
        ensures
            v == Visibility::Visible,
    {
        Visibility::Visible
    }

    /// The other state.
    pub open spec fn flipped(self) -> Visibility {
        match self {
            Visibility::Visible => Visibility::Hidden,
            Visibility::Hidden => Visibility::Visible,
        }
    }

    /// The sweep that leaves this state: hiding when the notes are visible,
    /// showing when they are hidden.
    pub open spec fn sweep(self) -> Sweep {
        match self {
            Visibility::Visible => Sweep::Hide,
            Visibility::Hidden => Sweep::Show,
        }
    }
}

/// What a toggle comes to: the new state, and the windows to hide or show.
#[derive(Debug)]
pub struct Toggled {
    pub state: Visibility,
    pub sweep: Sweep,
    pub labels: Vec<String>,
}

/// Toggles the visibility of all notes. From `Visible`, every live note
/// window is hidden; from `Hidden`, every live note window is shown and
/// brought back from the task bar. The caller is to do so with each window
/// whose label is returned, and to keep the new state.
pub fn toggle_visibility(state: Visibility, windows: &mut WindowSet) -> (r: Toggled)
    ensures
        r.state == state.flipped(),
        r.sweep == state.sweep(),
        distinct_labels(final(windows)@),
        final(windows)@ == all_swept(old(windows)@, state.sweep()),
        texts(r.labels@) == note_labels(old(windows)@),
{
    match state {
        Visibility::Visible => {
            let labels = sweep_note_windows(windows, Sweep::Hide);
            Toggled { state: Visibility::Hidden, sweep: Sweep::Hide, labels }
        },
        Visibility::Hidden => {
            let labels = sweep_note_windows(windows, Sweep::Show);
            Toggled { state: Visibility::Visible, sweep: Sweep::Show, labels }
        },
    }
}

/// The live windows after two toggles in a row, starting from `state`.
pub open spec fn toggled_twice(s: Seq<LiveWindowView>, state: Visibility) -> Seq<LiveWindowView> {
    all_swept(all_swept(s, state.sweep()), state.flipped().sweep())
}

/// Two toggles in a row bring the controller back to its state, leave every
/// window that is no note window as it was, and leave every note window
/// visible exactly if the controller says so.
pub proof fn lemma_toggle_twice(s: Seq<LiveWindowView>, state: Visibility)
    ensures
        state.flipped().flipped() == state,
        toggled_twice(s, state).len() == s.len(),
        forall|i: int|
            0 <= i < s.len() ==> (#[trigger] toggled_twice(s, state)[i]).label == s[i].label,
        forall|i: int|
            0 <= i < s.len() && !is_note_label(s[i].label) ==> #[trigger] toggled_twice(s, state)[i]
                == s[i],
        forall|i: int|
            0 <= i < s.len() && is_note_label(s[i].label) ==> (#[trigger] toggled_twice(
                s,
                state,
            )[i]).visible == (state == Visibility::Visible),
{
}

/// Two toggles in a row give every window back its visibility, where each
/// note window was visible or hidden as the controller said before.
pub proof fn lemma_toggle_twice_restores(s: Seq<LiveWindowView>, state: Visibility)
    requires
        forall|i: int|
            0 <= i < s.len() && is_note_label(#[trigger] s[i].label) ==> s[i].visible == (state
                == Visibility::Visible),
    ensures
        forall|i: int|
            0 <= i < s.len() ==> (#[trigger] toggled_twice(s, state)[i]).visible == s[i].visible,
{
    lemma_toggle_twice(s, state);
    assert forall|i: int| 0 <= i < s.len() implies (#[trigger] toggled_twice(s, state)[i]).visible
        == s[i].visible by {
        if is_note_label(s[i].label) {
        }
    }
}

/// Makes a note at the default place, as the hotkey for a new note asks, and
/// sees to its window. The caller is to build the window that is returned,
/// if any. A store error leaves store and windows as they were; it can only
/// come from a store that holds an id of the shape that is drawn.
pub fn on_new_note(
    db: &mut Database,
    windows: &mut WindowSet,
    default_opacity: Option<u64>,
) -> (r: Result<(Note, Option<WindowSpec>), StoreError>)
    ensures
        final(db)@.valid(),
        match r {
            Ok((n, spec)) => {
                &&& distinct_labels(final(windows)@)
                &&& is_uuid_text(n@.id)
                &&& n@ == fresh_note(
                    n@.id,
                    n@.created_at,
                    HOTKEY_NOTE_X,
                    HOTKEY_NOTE_Y,
                    default_opacity,
                )
                &&& !has_note(old(db)@.notes, n@.id)
                &&& final(db)@ == old(db)@.with_note(n@)
                &&& final(windows)@ == ensured(old(windows)@, n@)
                &&& match spec {
                    Some(w) => w@ == window_spec_for(n@) && !has_window(
                        old(windows)@,
                        label_of(n@.id),
                    ),
                    None => has_window(old(windows)@, label_of(n@.id)),
                }
            },
            Err(e) => {
                &&& e == StoreError::DuplicateId
                &&& final(db)@ == old(db)@
                &&& final(windows)@ == old(windows)@
                &&& exists|id: Seq<char>|
                    is_uuid_text(id) && #[trigger] has_note(old(db)@.notes, id)
            },
        },
{
    match db.create_note(HOTKEY_NOTE_X, HOTKEY_NOTE_Y, default_opacity) {
        Ok(note) => {
            let spec = create_note_window(windows, &note);
            Ok((note, spec))
        },
        Err(e) => Err(e),
    }
}

} // verus!
