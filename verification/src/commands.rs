//! The command boundary: what the user interface may ask for.
//!
//! Each command checks and normalises its input, changes the store, and says
//! which window operations the caller is to carry out. A command that fails
//! does so with a text for the user.

use crate::db::{
    has_note, note_with, Database, DatabaseView, StoreError, DEFAULT_OPACITY_KEY, THEME_KEY,
};
use crate::ident::is_uuid_text;
use crate::note::{
    field_writes, fresh_note, lemma_planned_writes_applied, note_views, opt_note_view, opt_text,
    planned_writes, updated_note, write_views, writes_applied, writes_something, given_or,
    FieldWrite, FieldWriteView, Note, NoteView, Settings, MODE_TEXT, MODE_TODO,
};
use crate::note_window::{
    all_swept, closed, create_note_window, distinct_labels, ensured, has_window, id_of_label,
    label_of, note_id_of, note_labels, sweep_note_windows, texts, topped, window_label,
    window_spec_for, LiveWindowView, Sweep, WindowSet, WindowSpec, MIN_HEIGHT, MIN_WIDTH,
};
use crate::opacity::{clamp_opacity, clamp_spec, default_or, in_range};
use vstd::prelude::*;
use vstd::string::StringExecFns;

verus! {

/// Where a note goes when the request names no place.
pub const DEFAULT_X: i32 = 100;

/// Where a note goes when the request names no place.
pub const DEFAULT_Y: i32 = 100;

/// The error text for a note that the store does not hold.
pub const NOT_FOUND: &'static str = "Note not found";

/// The name of the event that tells a window of its note's new opacity.
pub const OPACITY_EVENT: &'static str = "opacity-updated";

/// A mode that a note may have.
pub open spec fn is_valid_mode(m: Seq<char>) -> bool {
    m == MODE_TEXT@ || m == MODE_TODO@
}

/// The error text for a mode that no note may have.
pub open spec fn invalid_mode_text(m: Seq<char>) -> Seq<char> {
    "Invalid mode: "@ + m + ". Must be \"text\" or \"todo\""@
}

/// The value, or the given one where there is none.
pub open spec fn or_default(o: Option<i32>, d: i32) -> i32 {
    match o {
        Some(v) => v,
        None => d,
    }
}

/// A length raised to the least that is allowed.
pub open spec fn floored(o: Option<i32>, least: i32) -> Option<i32> {
    match o {
        Some(v) => Some(if v < least { least } else { v }),
        None => None,
    }
}

/// An opacity clamped to the range of opacities.
pub open spec fn clamped(o: Option<u64>) -> Option<u64> {
    match o {
        Some(v) => Some(clamp_spec(v)),
        None => None,
    }
}

/// Tells whether a note may have this mode.
pub fn mode_is_valid(m: &str) -> (r: bool)
    ensures
        r == is_valid_mode(m@),
{
    let m = m.to_owned();
    m == MODE_TEXT.to_owned() || m == MODE_TODO.to_owned()
}

/// Raises a length to the least that is allowed.
fn floor_to(o: Option<i32>, least: i32) -> (r: Option<i32>)
    ensures
        r == floored(o, least),
{
    match o {
        Some(v) => Some(if v < least { least } else { v }),
        None => None,
    }
}

/// Clamps an opacity where one is given.
fn clamp_given(o: Option<u64>) -> (r: Option<u64>)
    ensures
        r == clamped(o),
{
    match o {
        Some(v) => Some(clamp_opacity(v)),
        None => None,
    }
}

/// The field writes of a request for an update, after the checks of the
/// boundary: the opacity clamped, width and height raised to their least.
pub open spec fn validated_writes(
    title: Option<Seq<char>>,
    content: Option<Seq<char>>,
    mode: Option<Seq<char>>,
    pos_x: Option<i32>,
    pos_y: Option<i32>,
    width: Option<i32>,
    height: Option<i32>,
    opacity: Option<u64>,
    always_on_top: Option<bool>,
) -> Seq<FieldWriteView> {
    planned_writes(
        title,
        content,
        mode,
        pos_x,
        pos_y,
        floored(width, MIN_WIDTH),
        floored(height, MIN_HEIGHT),
        clamped(opacity),
        always_on_top,
    )
}

/// After an update that went through the checks of the boundary, the note's
/// opacity is the requested one clamped, its width is at least 200 and its
/// height at least 150, where the update gives them, each on its own. A
/// field that the update does not give stays as it was, and the time of
/// update is refreshed exactly if the update gives a field.
pub proof fn lemma_validated_update_is_bounded(
    n: NoteView,
    title: Option<Seq<char>>,
    content: Option<Seq<char>>,
    mode: Option<Seq<char>>,
    pos_x: Option<i32>,
    pos_y: Option<i32>,
    width: Option<i32>,
    height: Option<i32>,
    opacity: Option<u64>,
    always_on_top: Option<bool>,
    now: Seq<char>,
)
    ensures
        ({
            let m = writes_applied(
                n,
                validated_writes(
                    title,
                    content,
                    mode,
                    pos_x,
                    pos_y,
                    width,
                    height,
                    opacity,
                    always_on_top,
                ),
                now,
            );
            &&& m.opacity == match opacity {
                Some(o) => clamp_spec(o),
                None => n.opacity,
            }
            &&& opacity is Some ==> in_range(m.opacity)
            &&& m.width == match width {
                Some(w) => if w < MIN_WIDTH {
                    MIN_WIDTH as int
                } else {
                    w as int
                },
                None => n.width,
            }
            &&& m.height == match height {
                Some(h) => if h < MIN_HEIGHT {
                    MIN_HEIGHT as int
                } else {
                    h as int
                },
                None => n.height,
            }
            &&& width is Some ==> m.width >= 200
            &&& height is Some ==> m.height >= 150
            &&& m.pos_x == given_or(pos_x, n.pos_x)
            &&& m.pos_y == given_or(pos_y, n.pos_y)
            &&& m.updated_at == if writes_something(
                title,
                content,
                mode,
                pos_x,
                pos_y,
                width,
                height,
                opacity,
                always_on_top,
            ) {
                now
            } else {
                n.updated_at
            }
            &&& m.id == n.id
            &&& m.created_at == n.created_at
            &&& m.is_open == n.is_open
        }),
{
    lemma_planned_writes_applied(
        n,
        title,
        content,
        mode,
        pos_x,
        pos_y,
        floored(width, MIN_WIDTH),
        floored(height, MIN_HEIGHT),
        clamped(opacity),
        always_on_top,
        now,
    );
}

/// Whatever opacity is asked for, what the store holds afterwards is that
/// opacity clamped: for a new note's default, for the note that a window
/// sets it on, and for every note when it is set on all.
pub proof fn lemma_stored_opacity_is_clamped(
    db: DatabaseView,
    id: Seq<char>,
    opacity: u64,
    now: Seq<char>,
    pos_x: i32,
    pos_y: i32,
)
    requires
        db.valid(),
        has_note(db.notes, id),
    ensures
        fresh_note(id, now, pos_x, pos_y, Some(opacity)).opacity == clamp_spec(opacity),
        note_with(
            db.with_writes(id, seq![FieldWriteView::Opacity(clamp_spec(opacity))], now).notes,
            id,
        ) matches Some(m) && m.opacity == clamp_spec(opacity),
        forall|i: int|
            0 <= i < db.notes.len() ==> (#[trigger] db.with_all_opacity(
                clamp_spec(opacity),
                now,
            ).notes[i]).opacity == clamp_spec(opacity),
        in_range(clamp_spec(opacity)),
{
    let ws = seq![FieldWriteView::Opacity(clamp_spec(opacity))];
    crate::db::lemma_update_touches_one(db, id, ws, now);
    reveal_with_fuel(writes_applied, 2);
    assert(ws.drop_first() =~= Seq::<FieldWriteView>::empty());
}

/// The window of a note with an id of the drawn shape sets the opacity of
/// that note: found by the window's label, the note has the requested
/// opacity clamped and the new time of update, its other fields stay, and so
/// does every other note.
pub proof fn lemma_window_sets_its_notes_opacity(
    db: DatabaseView,
    id: Seq<char>,
    opacity: u64,
    now: Seq<char>,
)
    requires
        db.valid(),
        has_note(db.notes, id),
        is_uuid_text(id),
    ensures
        id_of_label(label_of(id)) == id,
        ({
            let after = db.with_writes(
                id_of_label(label_of(id)),
                seq![FieldWriteView::Opacity(clamp_spec(opacity))],
                now,
            );
            &&& after.valid()
            &&& note_with(after.notes, id) == Some(
                NoteView {
                    opacity: clamp_spec(opacity),
                    updated_at: now,
                    ..note_with(db.notes, id)->0
                },
            )
            &&& in_range(clamp_spec(opacity))
            &&& forall|other: Seq<char>|
                other != id ==> #[trigger] note_with(after.notes, other) == note_with(
                    db.notes,
                    other,
                )
        }),
{
    let ws = seq![FieldWriteView::Opacity(clamp_spec(opacity))];
    crate::note_window::lemma_id_of_label_of_uuid(id);
    crate::db::lemma_update_touches_one(db, id, ws, now);
    reveal_with_fuel(writes_applied, 2);
    assert(ws.drop_first() =~= Seq::<FieldWriteView>::empty());
}

/// After an update that went through the checks of the boundary, the note
/// in the store has the requested opacity clamped, and a width and height of
/// at least 200 and 150, where the update gives them, each on its own; every
/// other note is as it was.
pub proof fn lemma_validated_update_is_stored(
    db: DatabaseView,
    id: Seq<char>,
    title: Option<Seq<char>>,
    content: Option<Seq<char>>,
    mode: Option<Seq<char>>,
    pos_x: Option<i32>,
    pos_y: Option<i32>,
    width: Option<i32>,
    height: Option<i32>,
    opacity: Option<u64>,
    always_on_top: Option<bool>,
    now: Seq<char>,
)
    requires
        db.valid(),
        has_note(db.notes, id),
    ensures
        ({
            let after = db.with_writes(
                id,
                validated_writes(
                    title,
                    content,
                    mode,
                    pos_x,
                    pos_y,
                    width,
                    height,
                    opacity,
                    always_on_top,
                ),
                now,
            );
            &&& after.valid()
            &&& note_with(after.notes, id) matches Some(m) && {
                &&& opacity matches Some(o) ==> m.opacity == clamp_spec(o)
                &&& opacity is Some ==> in_range(m.opacity)
                &&& width matches Some(w) ==> m.width >= 200 && m.width >= w
                &&& height matches Some(h) ==> m.height >= 150 && m.height >= h
                &&& mode matches Some(t) ==> m.mode == t
            }
            &&& forall|other: Seq<char>|
                other != id ==> #[trigger] note_with(after.notes, other) == note_with(
                    db.notes,
                    other,
                )
        }),
{
    let ws = validated_writes(
        title,
        content,
        mode,
        pos_x,
        pos_y,
        width,
        height,
        opacity,
        always_on_top,
    );
    crate::db::lemma_update_touches_one(db, id, ws, now);
    lemma_validated_update_is_bounded(
        note_with(db.notes, id)->0,
        title,
        content,
        mode,
        pos_x,
        pos_y,
        width,
        height,
        opacity,
        always_on_top,
        now,
    );
    lemma_planned_writes_applied(
        note_with(db.notes, id)->0,
        title,
        content,
        mode,
        pos_x,
        pos_y,
        floored(width, MIN_WIDTH),
        floored(height, MIN_HEIGHT),
        clamped(opacity),
        always_on_top,
        now,
    );
}

/// The request for an update names a mode that no note may have.
pub open spec fn names_invalid_mode(mode: Option<Seq<char>>) -> bool {
    mode matches Some(m) && !is_valid_mode(m)
}

/// Checks a request for an update and lists its field writes. A mode other
/// than "text" and "todo" is refused, with a text that names it. The opacity
/// is clamped, width and height are raised to 200 and 150.
pub fn validate_update(
    title: Option<&str>,
    content: Option<&str>,
    mode: Option<&str>,
    pos_x: Option<i32>,
    pos_y: Option<i32>,
    width: Option<i32>,
    height: Option<i32>,
    opacity: Option<u64>,
    always_on_top: Option<bool>,
) -> (r: Result<Vec<FieldWrite>, String>)
    ensures
        match r {
            Ok(ws) => {
                &&& !names_invalid_mode(opt_text(mode))
                &&& write_views(ws@) == validated_writes(
                    opt_text(title),
                    opt_text(content),
                    opt_text(mode),
                    pos_x,
                    pos_y,
                    width,
                    height,
                    opacity,
                    always_on_top,
                )
            },
            Err(e) => {
                &&& names_invalid_mode(opt_text(mode))
                &&& e@ == invalid_mode_text(opt_text(mode)->0)
            },
        },
{
    if let Some(m) = mode {
        if !mode_is_valid(m) {
            let e = "Invalid mode: ".to_owned().concat(m).concat(". Must be \"text\" or \"todo\"");
            return Err(e);
        }
    }
    Ok(
        field_writes(
            title,
            content,
            mode,
            pos_x,
            pos_y,
            floor_to(width, MIN_WIDTH),
            floor_to(height, MIN_HEIGHT),
            clamp_given(opacity),
            always_on_top,
        ),
    )
}

/// Makes a note at the given place, or at (100, 100) where none is given,
/// and sees to its window. The caller is to build the window that is
/// returned, if any. A store error leaves store and windows as they were; it
/// can only come from a store that holds an id of the shape that is drawn.
pub fn create_note(
    db: &mut Database,
    windows: &mut WindowSet,
    pos_x: Option<i32>,
    pos_y: Option<i32>,
    default_opacity: Option<u64>,
) -> (r: Result<(Note, Option<WindowSpec>), String>)
    ensures
        final(db)@.valid(),
        match r {
            Ok((n, spec)) => {
                &&& distinct_labels(final(windows)@)
                &&& is_uuid_text(n@.id)
                &&& n@ == fresh_note(
                    n@.id,
                    n@.created_at,
                    or_default(pos_x, DEFAULT_X),
                    or_default(pos_y, DEFAULT_Y),
                    default_opacity,
                )
                &&& !has_note(old(db)@.notes, n@.id)
                &&& final(db)@ == old(db)@.with_note(n@)
                &&& final(windows)@ == ensured(old(windows)@, n@)
                &&& match spec {
                    Some(w) => w@ == window_spec_for(n@) && !has_window(
                        old(windows)@,
                        label_of(n@.id),
                    ),
                    None => has_window(old(windows)@, label_of(n@.id)),
                }
            },
            Err(e) => {
                &&& e@ == StoreError::DuplicateId.text()
                &&& final(db)@ == old(db)@
                &&& final(windows)@ == old(windows)@
                &&& exists|id: Seq<char>|
                    is_uuid_text(id) && #[trigger] has_note(old(db)@.notes, id)
            },
        },
{
    let x = match pos_x {
        Some(v) => v,
        None => DEFAULT_X,
    };
    let y = match pos_y {
        Some(v) => v,
        None => DEFAULT_Y,
    };
    match db.create_note(x, y, default_opacity) {
        Ok(note) => {
            let spec = create_note_window(windows, &note);
            Ok((note, spec))
        },
        Err(e) => Err(e.message()),
    }
}

/// The note with this id, if the store holds one.
pub fn get_note(db: &Database, id: &str) -> (r: Option<Note>)
    ensures
        opt_note_view(r) == note_with(db@.notes, id@),
{
    db.get_note(id)
}

/// All notes, in the order of their creation.
pub fn get_all_notes(db: &Database) -> (r: Vec<Note>)
    ensures
        note_views(r@) == db@.notes,
        db@.valid(),
{
    db.get_all_notes()
}

/// Updates a note with the fields that the request gives, after the checks
/// of the boundary. A request with a mode that no note may have is refused;
/// so is, after that check, a request for a note that the store does not
/// hold. A request that is refused leaves the store as it was.
pub fn update_note(
    db: &mut Database,
    id: &str,
    title: Option<&str>,
    content: Option<&str>,
    mode: Option<&str>,
    pos_x: Option<i32>,
    pos_y: Option<i32>,
    width: Option<i32>,
    height: Option<i32>,
    opacity: Option<u64>,
    always_on_top: Option<bool>,
) -> (r: Result<(), String>)
    ensures
        match r {
            Ok(()) => {
                &&& !names_invalid_mode(opt_text(mode))
                &&& has_note(old(db)@.notes, id@)
                &&& final(db)@.valid()
                &&& exists|now: Seq<char>|
                    {
                        &&& final(db)@ == #[trigger] old(db)@.with_writes(
                            id@,
                            validated_writes(
                                opt_text(title),
                                opt_text(content),
                                opt_text(mode),
                                pos_x,
                                pos_y,
                                width,
                                height,
                                opacity,
                                always_on_top,
                            ),
                            now,
                        )
                        &&& note_with(final(db)@.notes, id@) == Some(
                            updated_note(
                                note_with(old(db)@.notes, id@)->0,
                                opt_text(title),
                                opt_text(content),
                                opt_text(mode),
                                pos_x,
                                pos_y,
                                floored(width, MIN_WIDTH),
                                floored(height, MIN_HEIGHT),
                                opacity,
                                always_on_top,
                                now,
                            ),
                        )
                    }
            },
            Err(e) => {
                &&& final(db)@ == old(db)@
                &&& if names_invalid_mode(opt_text(mode)) {
                    e@ == invalid_mode_text(opt_text(mode)->0)
                } else {
                    !has_note(old(db)@.notes, id@) && e@ == NOT_FOUND@
                }
            },
        },
{
    match validate_update(
        title,
        content,
        mode,
        pos_x,
        pos_y,
        width,
        height,
        opacity,
        always_on_top,
    ) {
        Ok(writes) => {
            if !db.contains(id) {
                return Err(NOT_FOUND.to_owned());
            }
            let now = crate::clock::now_rfc3339();
            db.apply_writes(id, &writes, now.as_str());
            proof {
                let checked = validated_writes(
                    opt_text(title),
                    opt_text(content),
                    opt_text(mode),
                    pos_x,
                    pos_y,
                    width,
                    height,
                    opacity,
                    always_on_top,
                );
                crate::db::lemma_update_touches_one(old(db)@, id@, checked, now@);
                lemma_planned_writes_applied(
                    note_with(old(db)@.notes, id@)->0,
                    opt_text(title),
                    opt_text(content),
                    opt_text(mode),
                    pos_x,
                    pos_y,
                    floored(width, MIN_WIDTH),
                    floored(height, MIN_HEIGHT),
                    clamped(opacity),
                    always_on_top,
                    now@,
                );
                assert(final(db)@ == old(db)@.with_writes(id@, checked, now@));
            }
            Ok(())
        },
        Err(e) => Err(e),
    }
}

/// Closes a note: marks it closed in the store, then takes its window from
/// the live ones. The caller is to close the window whose label is returned,
/// if any. Closing a note that is closed, or that the store does not hold,
/// is no error.
pub fn close_note(db: &mut Database, windows: &mut WindowSet, id: &str) -> (r: Option<String>)
    ensures
        final(db)@.valid(),
        distinct_labels(final(windows)@),
        exists|now: Seq<char>| final(db)@ == #[trigger] old(db)@.with_open(id@, false, now),
        final(windows)@ == closed(old(windows)@, label_of(id@)),
        !has_window(final(windows)@, label_of(id@)),
        match r {
            Some(label) => label@ == label_of(id@) && has_window(old(windows)@, label_of(id@)),
            None => !has_window(old(windows)@, label_of(id@)),
        },
{
    db.close_note(id);
    let label = window_label(id);
    if windows.remove(label.as_str()) {
        Some(label)
    } else {
        None
    }
}

/// Deletes a note: removes its record, then takes its window from the live
/// ones. The caller is to close the window whose label is returned, if any.
pub fn delete_note(db: &mut Database, windows: &mut WindowSet, id: &str) -> (r: Option<String>)
    ensures
        final(db)@.valid(),
        distinct_labels(final(windows)@),
        final(db)@ == old(db)@.without(id@),
        !has_note(final(db)@.notes, id@),
        final(windows)@ == closed(old(windows)@, label_of(id@)),
        !has_window(final(windows)@, label_of(id@)),
        match r {
            Some(label) => label@ == label_of(id@) && has_window(old(windows)@, label_of(id@)),
            None => !has_window(old(windows)@, label_of(id@)),
        },
{
    db.delete_note(id);
    let label = window_label(id);
    if windows.remove(label.as_str()) {
        Some(label)
    } else {
        None
    }
}

/// Opens a note: marks it open in the store, reads it back, and sees to its
/// window. The caller is to build the window that is returned, if any. A
/// note that the store does not hold is an error, and nothing changes.
pub fn open_note(
    db: &mut Database,
    windows: &mut WindowSet,
    id: &str,
) -> (r: Result<(Note, Option<WindowSpec>), String>)
    ensures
        final(db)@.valid(),
        match r {
            Ok((n, spec)) => {
                &&& distinct_labels(final(windows)@)
                &&& has_note(old(db)@.notes, id@)
                &&& exists|now: Seq<char>|
                    final(db)@ == #[trigger] old(db)@.with_open(id@, true, now)
                &&& note_with(final(db)@.notes, id@) == Some(n@)
                &&& n@.id == id@
                &&& n@.is_open
                &&& final(windows)@ == ensured(old(windows)@, n@)
                &&& has_window(final(windows)@, label_of(id@))
                &&& match spec {
                    Some(w) => w@ == window_spec_for(n@) && !has_window(
                        old(windows)@,
                        label_of(id@),
                    ),
                    None => has_window(old(windows)@, label_of(id@)),
                }
            },
            Err(e) => {
                &&& !has_note(old(db)@.notes, id@)
                &&& e@ == NOT_FOUND@
                &&& final(db)@ == old(db)@
                &&& final(windows)@ == old(windows)@
            },
        },
{
    let ghost before = db@;
    db.open_note(id);
    proof {
        let now = choose|now: Seq<char>| db@ == #[trigger] before.with_open(id@, true, now);
        if has_note(before.notes, id@) {
            let i = crate::db::place_of(before.notes, id@);
            assert(db@.notes[i].id == id@);
            crate::db::lemma_place_of(db@.notes, i);
        } else {
            assert(db@ == before);
        }
    }
    match db.get_note(id) {
        Some(note) => {
            let spec = create_note_window(windows, &note);
            Ok((note, spec))
        },
        None => Err(NOT_FOUND.to_owned()),
    }
}

/// Sets the opacity of the note whose window asks for it, and returns the
/// opacity that was stored. The opacity is clamped; the note is the one that
/// the window's label names. Where the store holds no such note, that is an
/// error and nothing changes.
pub fn set_opacity(db: &mut Database, label: &str, opacity: u64) -> (r: Result<u64, String>)
    ensures
        match r {
            Ok(stored) => {
                &&& has_note(old(db)@.notes, id_of_label(label@))
                &&& stored == clamp_spec(opacity)
                &&& in_range(stored)
                &&& final(db)@.valid()
                &&& exists|now: Seq<char>|
                    {
                        &&& final(db)@ == #[trigger] old(db)@.with_writes(
                            id_of_label(label@),
                            seq![FieldWriteView::Opacity(clamp_spec(opacity))],
                            now,
                        )
                        &&& note_with(final(db)@.notes, id_of_label(label@)) == Some(
                            NoteView {
                                opacity: stored,
                                updated_at: now,
                                ..note_with(old(db)@.notes, id_of_label(label@))->0
                            },
                        )
                    }
            },
            Err(e) => {
                &&& !has_note(old(db)@.notes, id_of_label(label@))
                &&& e@ == NOT_FOUND@
                &&& final(db)@ == old(db)@
            },
        },
{
    let stored = clamp_opacity(opacity);
    let id = note_id_of(label);
    if !db.contains(id.as_str()) {
        return Err(NOT_FOUND.to_owned());
    }
    let mut writes: Vec<FieldWrite> = Vec::new();
    writes.push(FieldWrite::Opacity(stored));
    assert(write_views(writes@) =~= seq![FieldWriteView::Opacity(clamp_spec(opacity))]);
    let now = crate::clock::now_rfc3339();
    db.apply_writes(id.as_str(), &writes, now.as_str());
    proof {
        let ws = seq![FieldWriteView::Opacity(clamp_spec(opacity))];
        crate::db::lemma_update_touches_one(old(db)@, id@, ws, now@);
        reveal_with_fuel(writes_applied, 2);
        assert(ws.drop_first() =~= Seq::<FieldWriteView>::empty());
        assert(final(db)@ == old(db)@.with_writes(id_of_label(label@), ws, now@));
    }
    Ok(stored)
}

/// Records that the window with this label was put on top of the others, or
/// taken from the top: in the live windows, and in the note that the label
/// names. The caller has put the window there before, and calls this only
/// if that went well. Where the store holds no such note, that is an error
/// and the store stays as it was; the live windows are marked all the same,
/// since the window is where it was put.
pub fn set_always_on_top(
    db: &mut Database,
    windows: &mut WindowSet,
    label: &str,
    on_top: bool,
) -> (r: Result<(), String>)
    ensures
        distinct_labels(final(windows)@),
        final(windows)@ == topped(old(windows)@, label@, on_top),
        match r {
            Ok(()) => {
                &&& has_note(old(db)@.notes, id_of_label(label@))
                &&& final(db)@.valid()
                &&& exists|now: Seq<char>|
                    final(db)@ == #[trigger] old(db)@.with_writes(
                        id_of_label(label@),
                        seq![FieldWriteView::AlwaysOnTop(on_top)],
                        now,
                    )
            },
            Err(e) => {
                &&& !has_note(old(db)@.notes, id_of_label(label@))
                &&& e@ == NOT_FOUND@
                &&& final(db)@ == old(db)@
            },
        },
{
    windows.set_always_on_top(label, on_top);
    let id = note_id_of(label);
    if !db.contains(id.as_str()) {
        return Err(NOT_FOUND.to_owned());
    }
    let mut writes: Vec<FieldWrite> = Vec::new();
    writes.push(FieldWrite::AlwaysOnTop(on_top));
    assert(write_views(writes@) =~= seq![FieldWriteView::AlwaysOnTop(on_top)]);
    let now = crate::clock::now_rfc3339();
    db.apply_writes(id.as_str(), &writes, now.as_str());
    Ok(())
}

/// The settings as one value. `default_opacity` is what the caller read from
/// the text of the setting, where it could read a number; it is returned
/// clamped, and as 0.95 where there is none.
pub fn get_settings(db: &Database, default_opacity: Option<u64>) -> (r: Settings)
    ensures
        r@.theme == if db@.settings.contains_key(THEME_KEY@) {
            db@.settings[THEME_KEY@]
        } else {
            crate::db::DEFAULT_THEME@
        },
        r@.default_opacity == default_or(default_opacity),
        in_range(r@.default_opacity),
{
    db.get_settings(default_opacity)
}

/// Sets the theme.
pub fn set_theme(db: &mut Database, theme: &str)
    ensures
        final(db)@.valid(),
        final(db)@ == old(db)@.with_setting(THEME_KEY@, theme@),
{
    db.set_setting(THEME_KEY, theme);
}

/// Sets the opacity of new notes: clamps the number and stores it as the
/// text that `render` writes for it. Writing a number as text is the
/// caller's business; the store gets whatever text `render` returns for the
/// clamped number.
pub fn set_default_opacity<F: Fn(u64) -> String>(
    db: &mut Database,
    opacity: u64,
    render: F,
) -> (stored: u64)
    requires
        call_requires(render, (clamp_spec(opacity),)),
    ensures
        stored == clamp_spec(opacity),
        in_range(stored),
        final(db)@.valid(),
        final(db)@.notes == old(db)@.notes,
        exists|text: String|
            call_ensures(render, (stored,), text) && final(db)@ == #[trigger] old(db)@.with_setting(
                DEFAULT_OPACITY_KEY@,
                text@,
            ),
{
    let stored = clamp_opacity(opacity);
    let text = render(stored);
    db.set_setting(DEFAULT_OPACITY_KEY, text.as_str());
    stored
}

/// Sends every live note window to the task bar. The caller is to minimize
/// each window whose label is returned.
pub fn minimize_all_notes(windows: &mut WindowSet) -> (labels: Vec<String>)
    ensures
        distinct_labels(final(windows)@),
        final(windows)@ == all_swept(old(windows)@, Sweep::Minimize),
        texts(labels@) == note_labels(old(windows)@),
{
    sweep_note_windows(windows, Sweep::Minimize)
}

/// Brings every live note window back from the task bar and shows it. The
/// caller is to do so with each window whose label is returned.
pub fn show_all_notes(windows: &mut WindowSet) -> (labels: Vec<String>)
    ensures
        distinct_labels(final(windows)@),
        final(windows)@ == all_swept(old(windows)@, Sweep::Show),
        texts(labels@) == note_labels(old(windows)@),
{
    sweep_note_windows(windows, Sweep::Show)
}

/// The labels of the windows of those notes, in the notes' order, that have
/// a live window.
pub open spec fn windows_of(windows: Seq<LiveWindowView>, notes: Seq<NoteView>) -> Seq<Seq<char>>
    decreases notes.len(),
{
    if notes.len() == 0 {
        Seq::empty()
    } else if has_window(windows, label_of(notes.last().id)) {
        windows_of(windows, notes.drop_last()).push(label_of(notes.last().id))
    } else {
        windows_of(windows, notes.drop_last())
    }
}

/// What a change of all opacities comes to: the opacity that was stored, and
/// the windows to tell of it.
#[derive(Debug)]
pub struct OpacityNotice {
    pub opacity: u64,
    pub labels: Vec<String>,
}

/// Gives every note in the store the same opacity, clamped. The caller is to
/// tell each window whose label is returned of the new opacity; that a
/// window cannot be told is no error.
pub fn set_all_opacity(db: &mut Database, windows: &WindowSet, opacity: u64) -> (r: OpacityNotice)
    ensures
        r.opacity == clamp_spec(opacity),
        final(db)@.valid(),
        exists|now: Seq<char>|
            final(db)@ == #[trigger] old(db)@.with_all_opacity(clamp_spec(opacity), now),
        texts(r.labels@) == windows_of(windows@, old(db)@.notes),
{
    let stored = clamp_opacity(opacity);
    let notes = db.get_all_notes();
    db.set_all_opacity(stored);
    let ghost all = note_views(notes@);
    let mut labels: Vec<String> = Vec::new();
    let mut i: usize = 0;
    proof {
        assert(all.take(0) =~= Seq::<NoteView>::empty());
        assert(texts(labels@) =~= Seq::<Seq<char>>::empty());
    }
    while i < notes.len()
        invariant
            i <= notes.len(),
            all == note_views(notes@),
            texts(labels@) == windows_of(windows@, all.take(i as int)),
        decreases notes.len() - i,
    {
        proof {
            assert(all.take(i as int + 1).drop_last() =~= all.take(i as int));
            assert(all.take(i as int + 1).last() == notes@[i as int]@);
        }
        let label = window_label(notes[i].id.as_str());
        if windows.contains(label.as_str()) {
            let ghost before = labels@;
            labels.push(label);
            proof {
                assert(texts(before).len() == before.len());
                assert(texts(labels@) =~= texts(before).push(label_of(notes@[i as int]@.id)));
            }
        }
        i += 1;
    }
    proof {
        assert(all.take(i as int) =~= all);
    }
    OpacityNotice { opacity: stored, labels }
}

} // verus!
