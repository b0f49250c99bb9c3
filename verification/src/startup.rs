//! What happens when the application starts: the windows of the open notes
//! are restored, and then at least one window is made sure of.

use crate::clock::now_rfc3339;
use crate::db::{
    has_note, lemma_place_of, note_with, open_notes, place_of, Database, DatabaseView,
};
use crate::ident::{fresh_id, is_uuid_text};
use crate::note::{
    fresh_note, note_views, write_views, writes_applied, FieldWrite, FieldWriteView, NoteView,
};
use crate::note_window::{
    create_note_window, distinct_labels, ensured, has_window, label_of, lemma_label_of_injective,
    lemma_restored_covers, lemma_restored_only, restore_open_notes, restored, spec_views,
    specs_built, window_for, window_place, window_spec_for, LiveWindowView, WindowSet, WindowSpec,
    WindowSpecView,
};
use vstd::prelude::*;

verus! {

/// Where the welcome note goes.
pub const WELCOME_X: i32 = 100;

/// Where the welcome note goes.
pub const WELCOME_Y: i32 = 100;

/// The title of the note that greets a first start.
pub const WELCOME_TITLE: &'static str = "Welcome";

/// The content of the note that greets a first start.
pub const WELCOME_CONTENT: &'static str =
    "Welcome to HoverThought HUD!\n\nUse + to create notes\nUse the menu to see all notes";

/// The note that greets a first start: a fresh note with the welcome title
/// and content.
pub open spec fn welcome_note(
    id: Seq<char>,
    now: Seq<char>,
    default_opacity: Option<u64>,
) -> NoteView {
    NoteView {
        title: WELCOME_TITLE@,
        content: WELCOME_CONTENT@,
        ..fresh_note(id, now, WELCOME_X, WELCOME_Y, default_opacity)
    }
}

/// The store once a visible window is made sure of. An empty store gets the
/// welcome note. A store with notes but no live window has its first note,
/// in the order of creation, marked open. Any other store stays as it is.
pub open spec fn enforced_store(
    db: DatabaseView,
    windows: Seq<LiveWindowView>,
    id: Seq<char>,
    now: Seq<char>,
    default_opacity: Option<u64>,
) -> DatabaseView {
    if db.notes.len() == 0 {
        DatabaseView { notes: seq![welcome_note(id, now, default_opacity)], ..db }
    } else if windows.len() == 0 {
        db.with_open(db.notes[0].id, true, now)
    } else {
        db
    }
}

/// The note whose window is made sure of, if any: the welcome note of an
/// empty store, or the first note of a store with notes but no live window,
/// as it was before it was marked open.
pub open spec fn enforced_note(
    db: DatabaseView,
    windows: Seq<LiveWindowView>,
    id: Seq<char>,
    now: Seq<char>,
    default_opacity: Option<u64>,
) -> Option<NoteView> {
    if db.notes.len() == 0 {
        Some(fresh_note(id, now, WELCOME_X, WELCOME_Y, default_opacity))
    } else if windows.len() == 0 {
        Some(db.notes[0])
    } else {
        None
    }
}

/// The live windows once a visible window is made sure of.
pub open spec fn enforced_windows(
    db: DatabaseView,
    windows: Seq<LiveWindowView>,
    id: Seq<char>,
    now: Seq<char>,
    default_opacity: Option<u64>,
) -> Seq<LiveWindowView> {
    match enforced_note(db, windows, id, now, default_opacity) {
        Some(n) => ensured(windows, n),
        None => windows,
    }
}

/// Makes sure of a visible window, with `id` for the note that may have to
/// be made and `now` as the time. The caller is to build the window that is
/// returned, if any.
pub fn ensure_visible_window_with(
    db: &mut Database,
    windows: &mut WindowSet,
    id: String,
    now: String,
    default_opacity: Option<u64>,
) -> (r: Option<WindowSpec>)
    ensures
        final(db)@.valid(),
        distinct_labels(final(windows)@),
        final(db)@ == enforced_store(old(db)@, old(windows)@, id@, now@, default_opacity),
        final(windows)@ == enforced_windows(old(db)@, old(windows)@, id@, now@, default_opacity),
        match enforced_note(old(db)@, old(windows)@, id@, now@, default_opacity) {
            Some(n) => match r {
                Some(spec) => spec@ == window_spec_for(n) && !has_window(
                    old(windows)@,
                    label_of(n.id),
                ),
                None => has_window(old(windows)@, label_of(n.id)),
            },
            None => r is None,
        },
{
    let notes = db.get_all_notes();
    let live = windows.len();
    if notes.len() == 0 {
        assert(note_views(notes@).len() == 0);
        match db.create_note_with(id, now.clone(), WELCOME_X, WELCOME_Y, default_opacity) {
            Ok(note) => {
                let mut writes: Vec<FieldWrite> = Vec::new();
                writes.push(FieldWrite::Title(WELCOME_TITLE.to_owned()));
                writes.push(FieldWrite::Content(WELCOME_CONTENT.to_owned()));
                proof {
                    let first = old(db)@.with_note(note@);
                    assert(first.notes =~= seq![note@]);
                    assert(first.notes[0].id == note@.id);
                    crate::db::lemma_place_of(first.notes, 0);
                    let ws = write_views(writes@);
                    assert(ws =~= seq![
                        FieldWriteView::Title(WELCOME_TITLE@),
                        FieldWriteView::Content(WELCOME_CONTENT@),
                    ]);
                    reveal_with_fuel(writes_applied, 3);
                    assert(ws.drop_first() =~= seq![FieldWriteView::Content(WELCOME_CONTENT@)]);
                    assert(ws.drop_first().drop_first() =~= Seq::<FieldWriteView>::empty());
                    assert(writes_applied(note@, ws, now@) == welcome_note(
                        id@,
                        now@,
                        default_opacity,
                    ));
                    assert(first.notes.update(0, welcome_note(id@, now@, default_opacity)) =~= seq![
                        welcome_note(id@, now@, default_opacity),
                    ]);
                }
                db.apply_writes(note.id.as_str(), &writes, now.as_str());
                create_note_window(windows, &note)
            },
            Err(_) => {
                proof {
                    assert(has_note(old(db)@.notes, id@));
                    let i = place_of(old(db)@.notes, id@);
                    assert(0 <= i < old(db)@.notes.len());
                }
                None
            },
        }
    } else if live == 0 {
        assert(note_views(notes@)[0] == notes@[0]@);
        db.set_open_at(notes[0].id.as_str(), true, now.as_str());
        create_note_window(windows, &notes[0])
    } else {
        assert(note_views(notes@).len() == notes@.len());
        None
    }
}

/// Makes sure of a visible window on the windows that are live now, which
/// the caller has seen after it restored the open notes' windows and built
/// them. An empty store gets the welcome note. A store with notes but no
/// live window has its first note, in the order of creation, marked open.
/// In both cases the caller is to build the window that is returned, if any.
/// Where the store has notes and a window is live, nothing changes.
///
/// The id of a welcome note is drawn at random and the time is read from the
/// clock, so the contract holds for some id of the drawn shape and some
/// time.
pub fn ensure_visible_window(
    db: &mut Database,
    windows: &mut WindowSet,
    default_opacity: Option<u64>,
) -> (r: Option<WindowSpec>)
    ensures
        final(db)@.valid(),
        distinct_labels(final(windows)@),
        exists|id: Seq<char>, now: Seq<char>|
            {
                &&& is_uuid_text(id)
                &&& final(db)@ == #[trigger] enforced_store(
                    old(db)@,
                    old(windows)@,
                    id,
                    now,
                    default_opacity,
                )
                &&& final(windows)@ == enforced_windows(
                    old(db)@,
                    old(windows)@,
                    id,
                    now,
                    default_opacity,
                )
                &&& match enforced_note(old(db)@, old(windows)@, id, now, default_opacity) {
                    Some(n) => match r {
                        Some(spec) => spec@ == window_spec_for(n) && !has_window(
                            old(windows)@,
                            label_of(n.id),
                        ),
                        None => has_window(old(windows)@, label_of(n.id)),
                    },
                    None => r is None,
                }
            },
{
    let id = fresh_id();
    let now = now_rfc3339();
    let r = ensure_visible_window_with(db, windows, id, now, default_opacity);
    proof {
        assert(final(db)@ == enforced_store(old(db)@, old(windows)@, id@, now@, default_opacity));
    }
    r
}

/// The live windows once the windows of the open notes are restored and a
/// visible window is made sure of.
pub open spec fn started_windows(
    db: DatabaseView,
    windows: Seq<LiveWindowView>,
    id: Seq<char>,
    now: Seq<char>,
    default_opacity: Option<u64>,
) -> Seq<LiveWindowView> {
    enforced_windows(db, restored(windows, open_notes(db.notes)), id, now, default_opacity)
}

/// The store once a start is through.
pub open spec fn started_store(
    db: DatabaseView,
    windows: Seq<LiveWindowView>,
    id: Seq<char>,
    now: Seq<char>,
    default_opacity: Option<u64>,
) -> DatabaseView {
    enforced_store(db, restored(windows, open_notes(db.notes)), id, now, default_opacity)
}

/// The windows that a start asks the caller to build: those of the open
/// notes that have none, and then the one that was made sure of, if it was
/// not live.
pub open spec fn started_specs(
    db: DatabaseView,
    windows: Seq<LiveWindowView>,
    id: Seq<char>,
    now: Seq<char>,
    default_opacity: Option<u64>,
) -> Seq<WindowSpecView> {
    let mid = restored(windows, open_notes(db.notes));
    let front = specs_built(windows, open_notes(db.notes));
    match enforced_note(db, mid, id, now, default_opacity) {
        Some(n) => if has_window(mid, label_of(n.id)) {
            front
        } else {
            front.push(window_spec_for(n))
        },
        None => front,
    }
}

/// Starts up: restores the windows of the notes that are marked open, in the
/// order of their creation, and then makes sure of a visible window. The
/// caller is to build the windows that are returned; that one of them cannot
/// be built is no reason to leave out the others.
///
/// Whether a window is live is decided here on the windows as they are once
/// the caller has built what is asked for. A caller to whom a build may fail
/// restores with [`restore_open_notes`], builds, and calls
/// [`ensure_visible_window`] on the windows that it then sees.
///
/// The id of a welcome note is drawn at random and the time is read from the
/// clock, so the contract holds for some id and some time.
pub fn run(
    db: &mut Database,
    windows: &mut WindowSet,
    default_opacity: Option<u64>,
) -> (r: Vec<WindowSpec>)
    ensures
        final(db)@.valid(),
        distinct_labels(final(windows)@),
        exists|id: Seq<char>, now: Seq<char>|
            {
                &&& is_uuid_text(id)
                &&& final(db)@ == #[trigger] started_store(
                    old(db)@,
                    old(windows)@,
                    id,
                    now,
                    default_opacity,
                )
                &&& final(windows)@ == started_windows(
                    old(db)@,
                    old(windows)@,
                    id,
                    now,
                    default_opacity,
                )
                &&& spec_views(r@) == started_specs(
                    old(db)@,
                    old(windows)@,
                    id,
                    now,
                    default_opacity,
                )
            },
{
    let mut specs = restore_open_notes(windows, db);
    let id = fresh_id();
    let now = now_rfc3339();
    let ghost front = specs@;
    let extra = ensure_visible_window_with(db, windows, id, now, default_opacity);
    match extra {
        Some(spec) => {
            specs.push(spec);
            proof {
                assert(spec_views(front).len() == front.len());
                assert(spec_views(specs@) =~= spec_views(front).push(spec@));
            }
        },
        None => {},
    }
    proof {
        assert(final(db)@ == started_store(old(db)@, old(windows)@, id@, now@, default_opacity));
    }
    specs
}

/// The notes that are marked open are notes of the store that are marked
/// open, and every such note is among them.
pub proof fn lemma_open_notes(s: Seq<NoteView>)
    ensures
        forall|i: int|
            0 <= i < open_notes(s).len() ==> (#[trigger] open_notes(s)[i]).is_open && s.contains(
                open_notes(s)[i],
            ),
        forall|i: int| 0 <= i < s.len() && (#[trigger] s[i]).is_open ==> open_notes(s).contains(s[i]),
{
    let p = |n: NoteView| n.is_open;
    assert forall|i: int| 0 <= i < open_notes(s).len() implies (#[trigger] open_notes(s)[i]).is_open
        && s.contains(open_notes(s)[i]) by {
        s.lemma_filter_pred(p, i);
        assert(s.filter(p).contains(s.filter(p)[i]));
        s.lemma_filter_contains_rev(p, s.filter(p)[i]);
    }
    assert forall|i: int| 0 <= i < s.len() && (#[trigger] s[i]).is_open implies open_notes(
        s,
    ).contains(s[i]) by {
        s.lemma_filter_contains(p, i);
    }
}

/// A start on an empty store makes exactly one note, the welcome note, which
/// is open and has its window.
pub proof fn lemma_start_of_empty_store(
    db: DatabaseView,
    windows: Seq<LiveWindowView>,
    id: Seq<char>,
    now: Seq<char>,
    default_opacity: Option<u64>,
)
    requires
        db.notes.len() == 0,
    ensures
        ({
            let after = started_store(db, windows, id, now, default_opacity);
            &&& after.notes == seq![welcome_note(id, now, default_opacity)]
            &&& after.notes.len() == 1
            &&& after.notes[0].title == WELCOME_TITLE@
            &&& after.notes[0].is_open
            &&& after.settings == db.settings
            &&& has_window(
                started_windows(db, windows, id, now, default_opacity),
                label_of(id),
            )
        }),
{
    lemma_open_notes(db.notes);
    assert(open_notes(db.notes).len() == 0) by {
        if open_notes(db.notes).len() > 0 {
            assert(db.notes.contains(open_notes(db.notes)[0]));
        }
    }
    let n = fresh_note(id, now, WELCOME_X, WELCOME_Y, default_opacity);
    let out = ensured(windows, n);
    if !has_window(windows, label_of(id)) {
        assert(out[out.len() - 1].label == label_of(id));
    }
}

/// A start on a store with notes, after which no window is live once those
/// of the open notes are restored, marks the first note in the order of
/// creation open, makes no note, leaves every other note as it was, and has
/// the first note's window as the only live one.
pub proof fn lemma_start_without_window(
    db: DatabaseView,
    windows: Seq<LiveWindowView>,
    id: Seq<char>,
    now: Seq<char>,
    default_opacity: Option<u64>,
)
    requires
        db.valid(),
        db.notes.len() > 0,
        restored(windows, open_notes(db.notes)).len() == 0,
    ensures
        ({
            let after = started_store(db, windows, id, now, default_opacity);
            let first = db.notes[0];
            &&& after.notes.len() == db.notes.len()
            &&& after.notes[0] == NoteView { is_open: true, updated_at: now, ..first }
            &&& forall|i: int| 0 < i < db.notes.len() ==> #[trigger] after.notes[i] == db.notes[i]
            &&& started_windows(db, windows, id, now, default_opacity) == seq![window_for(first)]
        }),
{
    let first = db.notes[0];
    lemma_place_of(db.notes, 0);
    let mid = restored(windows, open_notes(db.notes));
    assert(!has_window(mid, label_of(first.id)));
    assert(mid =~= Seq::<LiveWindowView>::empty());
    assert(mid.push(window_for(first)) =~= seq![window_for(first)]);
}

/// A note that was closed has no window after a restart from no live
/// window. Left out is the one case in which the start itself opens that
/// note again: no note is open and the closed note is the first in the
/// order of creation.
pub proof fn lemma_closed_note_stays_closed(
    db: DatabaseView,
    id: Seq<char>,
    at: Seq<char>,
    new_id: Seq<char>,
    now: Seq<char>,
    default_opacity: Option<u64>,
)
    requires
        db.valid(),
        has_note(db.notes, id),
        open_notes(db.with_open(id, false, at).notes).len() > 0 || db.with_open(
            id,
            false,
            at,
        ).notes[0].id != id,
    ensures
        !has_window(
            started_windows(
                db.with_open(id, false, at),
                Seq::empty(),
                new_id,
                now,
                default_opacity,
            ),
            label_of(id),
        ),
{
    let shut = db.with_open(id, false, at);
    let opens = open_notes(shut.notes);
    let none = Seq::<LiveWindowView>::empty();
    let mid = restored(none, opens);
    let label = label_of(id);
    let at_place = place_of(db.notes, id);
    crate::db::lemma_open_touches_one(db, id, false, at);
    lemma_open_notes(shut.notes);
    lemma_restored_covers(none, opens);
    if has_window(mid, label) {
        lemma_restored_only(none, opens, label);
        let i = choose|i: int| 0 <= i < opens.len() && label == label_of(#[trigger] opens[i].id);
        lemma_label_of_injective(id, opens[i].id);
        assert(shut.notes.contains(opens[i]));
        let j = choose|j: int| 0 <= j < shut.notes.len() && shut.notes[j] == opens[i];
        assert(shut.notes[j].id == id);
        lemma_place_of(shut.notes, j);
        assert(note_with(shut.notes, id) == Some(shut.notes[j]));
        assert(false);
    }
    let out = started_windows(shut, none, new_id, now, default_opacity);
    if has_window(out, label) {
        if mid.len() == 0 {
            if opens.len() > 0 {
                assert(has_window(mid, label_of(opens[0].id)));
                let k = window_place(mid, label_of(opens[0].id));
            }
            let first = shut.notes[0];
            assert(out =~= seq![window_for(first)]);
            let k = window_place(out, label);
            assert(out[k].label == label);
            lemma_label_of_injective(id, first.id);
        }
    }
}

/// A note that was opened has its window after a restart, whatever windows
/// were live before.
pub proof fn lemma_opened_note_is_restored(
    db: DatabaseView,
    windows: Seq<LiveWindowView>,
    id: Seq<char>,
    at: Seq<char>,
    new_id: Seq<char>,
    now: Seq<char>,
    default_opacity: Option<u64>,
)
    requires
        db.valid(),
        has_note(db.notes, id),
    ensures
        has_window(
            started_windows(db.with_open(id, true, at), windows, new_id, now, default_opacity),
            label_of(id),
        ),
{
    let shown = db.with_open(id, true, at);
    let opens = open_notes(shown.notes);
    let mid = restored(windows, opens);
    let i = place_of(db.notes, id);
    assert(shown.notes[i].is_open && shown.notes[i].id == id);
    lemma_open_notes(shown.notes);
    assert(opens.contains(shown.notes[i]));
    let j = choose|j: int| 0 <= j < opens.len() && opens[j] == shown.notes[i];
    lemma_restored_covers(windows, opens);
    assert(has_window(mid, label_of(opens[j].id)));
    let k = window_place(mid, label_of(id));
    let out = started_windows(shown, windows, new_id, now, default_opacity);
    assert(out[k].label == label_of(id));
}

} // verus!
