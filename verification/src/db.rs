//! The record store: notes in the order of their creation, and settings by
//! key.
//!
//! The store holds its records in memory. Writing them to disk, and reading
//! them back when the process starts, is the caller's business.

use crate::clock::now_rfc3339;
use crate::ident::{fresh_id, is_uuid_text};
use crate::note::{
    clone_notes, field_writes, fresh_note, lemma_planned_writes_applied,
    lemma_writes_keep_identity, note_views, opt_note_view, opt_text, planned_writes, stored_note,
    updated_note,
    write_applied, write_views, writes_applied, FieldWrite, FieldWriteView, Note, NoteView,
    Settings,
};
use crate::opacity::{clamp_default, clamp_opacity, default_or, in_range};
use crate::text::{lemma_lex_le_total, lemma_lex_le_transitive, text_at_or_before, text_le};
use vstd::prelude::*;
use vstd::utf8::encode_utf8;

verus! {

/// The key of the theme setting.
pub const THEME_KEY: &'static str = "theme";

/// The key of the setting that holds the opacity of new notes.
pub const DEFAULT_OPACITY_KEY: &'static str = "default_opacity";

/// The theme of a store that was never told another.
pub const DEFAULT_THEME: &'static str = "light";

/// The default opacity of a store that was never told another, as text.
pub const DEFAULT_OPACITY_TEXT: &'static str = "0.95";

/// The notes that are marked open, in their order.
pub open spec fn open_notes(s: Seq<NoteView>) -> Seq<NoteView> {
    s.filter(|n: NoteView| n.is_open)
}

/// Why the store refused an operation.
#[derive(Debug, Clone, Copy, PartialEq, Eq, Structural)]
pub enum StoreError {
    /// A note with this id is already stored.
    DuplicateId,
    /// No setting is stored under this key.
    MissingSetting,
}

impl StoreError {
    /// The text of the error, as a caller shows it.
    pub open spec fn text(self) -> Seq<char> {
        match self {
            StoreError::DuplicateId => "a note with this id is already stored"@,
            StoreError::MissingSetting => "no setting is stored under this key"@,
        }
    }

    /// The text of the error, as a caller shows it.
    pub fn message(&self) -> (m: String)
        ensures
            m@ == self.text(),
    {
        match self {
            StoreError::DuplicateId => "a note with this id is already stored".to_owned(),
            StoreError::MissingSetting => "no setting is stored under this key".to_owned(),
        }
    }
}

/// One stored setting.
struct Setting {
    key: String,
    value: String,
}

/// The mathematical value of a [`Database`].
pub struct DatabaseView {
    /// The notes, in the order in which the store hands them out.
    pub notes: Seq<NoteView>,
    /// The settings by key.
    pub settings: Map<Seq<char>, Seq<char>>,
}

/// No two notes share an id.
pub open spec fn distinct_ids(s: Seq<NoteView>) -> bool {
    forall|i: int, j: int| 0 <= i < j < s.len() ==> #[trigger] s[i].id != #[trigger] s[j].id
}

/// The notes stand in ascending order of their creation time.
pub open spec fn sorted_by_creation(s: Seq<NoteView>) -> bool {
    forall|i: int, j: int|
        0 <= i < j < s.len() ==> text_le(#[trigger] s[i].created_at, #[trigger] s[j].created_at)
}

/// Every note's opacity is a number from 0.3 to 1.0.
pub open spec fn opacities_in_range(s: Seq<NoteView>) -> bool {
    forall|i: int| 0 <= i < s.len() ==> in_range(#[trigger] s[i].opacity)
}

/// A note with this id is among the notes.
pub open spec fn has_note(s: Seq<NoteView>, id: Seq<char>) -> bool {
    exists|i: int| 0 <= i < s.len() && #[trigger] s[i].id == id
}

/// The place of the note with this id, where there is one.
pub open spec fn place_of(s: Seq<NoteView>, id: Seq<char>) -> int {
    choose|i: int| 0 <= i < s.len() && #[trigger] s[i].id == id
}

/// The note with this id, if it is among the notes.
pub open spec fn note_with(s: Seq<NoteView>, id: Seq<char>) -> Option<NoteView> {
    if has_note(s, id) {
        Some(s[place_of(s, id)])
    } else {
        None
    }
}

impl DatabaseView {
    /// What holds of every store: ids are distinct, the notes stand in
    /// ascending order of creation, and every opacity is a number from 0.3
    /// to 1.0.
    pub open spec fn valid(self) -> bool {
        distinct_ids(self.notes) && sorted_by_creation(self.notes) && opacities_in_range(
            self.notes,
        )
    }

    /// The store after the note with this id got a list of writes at time
    /// `now`; the same store where no note has this id.
    pub open spec fn with_writes(
        self,
        id: Seq<char>,
        ws: Seq<FieldWriteView>,
        now: Seq<char>,
    ) -> DatabaseView {
        if has_note(self.notes, id) {
            let i = place_of(self.notes, id);
            DatabaseView {
                notes: self.notes.update(i, writes_applied(self.notes[i], ws, now)),
                ..self
            }
        } else {
            self
        }
    }

    /// The store after the note with this id was marked open or closed at
    /// time `now`; the same store where no note has this id.
    pub open spec fn with_open(self, id: Seq<char>, open: bool, now: Seq<char>) -> DatabaseView {
        if has_note(self.notes, id) {
            let i = place_of(self.notes, id);
            DatabaseView {
                notes: self.notes.update(
                    i,
                    NoteView { is_open: open, updated_at: now, ..self.notes[i] },
                ),
                ..self
            }
        } else {
            self
        }
    }

    /// The store without the note with this id.
    pub open spec fn without(self, id: Seq<char>) -> DatabaseView {
        if has_note(self.notes, id) {
            DatabaseView { notes: self.notes.remove(place_of(self.notes, id)), ..self }
        } else {
            self
        }
    }

    /// The store with `value` under `key`, whatever was there before.
    pub open spec fn with_setting(self, key: Seq<char>, value: Seq<char>) -> DatabaseView {
        DatabaseView { settings: self.settings.insert(key, value), ..self }
    }

    /// The store after every note got the same opacity at time `now`.
    pub open spec fn with_all_opacity(self, opacity: u64, now: Seq<char>) -> DatabaseView {
        DatabaseView {
            notes: Seq::new(
                self.notes.len(),
                |i: int| write_applied(self.notes[i], FieldWriteView::Opacity(opacity), now),
            ),
            ..self
        }
    }

    /// The store with one more note, put at its landing place.
    pub open spec fn with_note(self, n: NoteView) -> DatabaseView {
        DatabaseView {
            notes: self.notes.insert(landing_place(self.notes, n.created_at), n),
            ..self
        }
    }
}

/// Where a note has its id at place `i` and ids are distinct, that is its
/// place.
pub proof fn lemma_place_of(s: Seq<NoteView>, i: int)
    requires
        distinct_ids(s),
        0 <= i < s.len(),
    ensures
        has_note(s, s[i].id),
        place_of(s, s[i].id) == i,
        note_with(s, s[i].id) == Some(s[i]),
{
    let id = s[i].id;
    let j = place_of(s, id);
    assert(0 <= j < s.len() && s[j].id == id);
    if j < i {
        assert(s[j].id != s[i].id);
    } else if i < j {
        assert(s[i].id != s[j].id);
    }
}

/// Where a note created at `t` goes among notes in ascending order of
/// creation: behind the leading notes created at or before `t`.
pub open spec fn landing_place(s: Seq<NoteView>, t: Seq<char>) -> int
    decreases s.len(),
{
    if s.len() > 0 && text_le(s[0].created_at, t) {
        1 + landing_place(s.drop_first(), t)
    } else {
        0
    }
}

/// The landing place is the one place `k` with every note before it created
/// at or before `t`, and the note at it, if any, created after `t`.
pub proof fn lemma_landing_place(s: Seq<NoteView>, t: Seq<char>, k: int)
    requires
        0 <= k <= s.len(),
        forall|j: int| 0 <= j < k ==> text_le(#[trigger] s[j].created_at, t),
        k < s.len() ==> !text_le(s[k].created_at, t),
    ensures
        landing_place(s, t) == k,
    decreases s.len(),
{
    if k > 0 {
        assert(text_le(s[0].created_at, t));
        let rest = s.drop_first();
        assert forall|j: int| 0 <= j < k - 1 implies text_le(#[trigger] rest[j].created_at, t) by {
            assert(rest[j] == s[j + 1]);
        }
        lemma_landing_place(rest, t, k - 1);
    }
}

/// The landing place lies within the list, with every note before it created
/// at or before `t`; among notes in ascending order, every note from it on
/// was created after `t`.
pub proof fn lemma_landing_place_splits(s: Seq<NoteView>, t: Seq<char>)
    ensures
        0 <= landing_place(s, t) <= s.len(),
        forall|j: int| 0 <= j < landing_place(s, t) ==> text_le(#[trigger] s[j].created_at, t),
        sorted_by_creation(s) ==> forall|j: int|
            landing_place(s, t) <= j < s.len() ==> !text_le(#[trigger] s[j].created_at, t),
    decreases s.len(),
{
    if s.len() > 0 && text_le(s[0].created_at, t) {
        let rest = s.drop_first();
        lemma_landing_place_splits(rest, t);
        assert forall|j: int| 0 <= j < landing_place(s, t) implies text_le(
            #[trigger] s[j].created_at,
            t,
        ) by {
            if j > 0 {
                assert(rest[j - 1] == s[j]);
            }
        }
        if sorted_by_creation(s) {
            assert forall|i: int, j: int| 0 <= i < j < rest.len() implies text_le(
                #[trigger] rest[i].created_at,
                #[trigger] rest[j].created_at,
            ) by {
                assert(rest[i] == s[i + 1] && rest[j] == s[j + 1]);
            }
            assert forall|j: int| landing_place(s, t) <= j < s.len() implies !text_le(
                #[trigger] s[j].created_at,
                t,
            ) by {
                assert(rest[j - 1] == s[j]);
            }
        }
    } else if s.len() > 0 && sorted_by_creation(s) {
        assert forall|j: int| 0 <= j < s.len() implies !text_le(#[trigger] s[j].created_at, t) by {
            if j > 0 && text_le(s[j].created_at, t) {
                assert(text_le(s[0].created_at, s[j].created_at));
                lemma_lex_le_transitive(
                    encode_utf8(s[0].created_at),
                    encode_utf8(s[j].created_at),
                    encode_utf8(t),
                );
            }
        }
    }
}

/// Putting a note with a new id and an opacity in range at its landing
/// place keeps ids distinct, the order of creation, and every opacity in
/// range.
pub proof fn lemma_insert_keeps_valid(s: Seq<NoteView>, n: NoteView)
    requires
        distinct_ids(s),
        sorted_by_creation(s),
        opacities_in_range(s),
        !has_note(s, n.id),
        in_range(n.opacity),
    ensures
        distinct_ids(s.insert(landing_place(s, n.created_at), n)),
        sorted_by_creation(s.insert(landing_place(s, n.created_at), n)),
        opacities_in_range(s.insert(landing_place(s, n.created_at), n)),
{
    let t = n.created_at;
    let k = landing_place(s, t);
    lemma_landing_place_splits(s, t);
    let r = s.insert(k, n);
    assert forall|i: int| 0 <= i < r.len() implies in_range(#[trigger] r[i].opacity) by {
        if i < k {
            assert(r[i] == s[i]);
        } else if i > k {
            assert(r[i] == s[i - 1]);
        }
    }
    assert forall|i: int, j: int| 0 <= i < j < r.len() implies #[trigger] r[i].id
        != #[trigger] r[j].id by {
        let a = if i < k { i } else { i - 1 };
        let b = if j < k { j } else { j - 1 };
        if i == k {
            assert(r[j] == s[b]);
            assert(s[b].id != n.id);
        } else if j == k {
            assert(r[i] == s[a]);
            assert(s[a].id != n.id);
        } else {
            assert(r[i] == s[a] && r[j] == s[b]);
        }
    }
    assert forall|i: int, j: int| 0 <= i < j < r.len() implies text_le(
        #[trigger] r[i].created_at,
        #[trigger] r[j].created_at,
    ) by {
        let a = if i < k { i } else { i - 1 };
        let b = if j < k { j } else { j - 1 };
        if i == k {
            assert(r[j] == s[b]);
            assert(!text_le(s[b].created_at, t));
            lemma_lex_le_total(encode_utf8(t), encode_utf8(s[b].created_at));
        } else if j == k {
            assert(r[i] == s[a]);
            assert(text_le(s[a].created_at, t));
        } else {
            assert(r[i] == s[a] && r[j] == s[b]);
        }
    }
}

/// Replacing a note by one with the same id and creation time and an
/// opacity in range keeps ids distinct, the order of creation, and every
/// opacity in range.
pub proof fn lemma_update_keeps_valid(s: Seq<NoteView>, i: int, n: NoteView)
    requires
        distinct_ids(s),
        sorted_by_creation(s),
        opacities_in_range(s),
        0 <= i < s.len(),
        n.id == s[i].id,
        n.created_at == s[i].created_at,
        in_range(n.opacity),
    ensures
        distinct_ids(s.update(i, n)),
        sorted_by_creation(s.update(i, n)),
        opacities_in_range(s.update(i, n)),
{
    let r = s.update(i, n);
    assert forall|a: int| 0 <= a < r.len() implies in_range(#[trigger] r[a].opacity) by {
        if a != i {
            assert(r[a] == s[a]);
        }
    }
    assert forall|a: int, b: int| 0 <= a < b < r.len() implies #[trigger] r[a].id
        != #[trigger] r[b].id by {
        assert(r[a].id == s[a].id && r[b].id == s[b].id);
    }
    assert forall|a: int, b: int| 0 <= a < b < r.len() implies text_le(
        #[trigger] r[a].created_at,
        #[trigger] r[b].created_at,
    ) by {
        assert(r[a].created_at == s[a].created_at && r[b].created_at == s[b].created_at);
    }
}

/// Taking a note out keeps ids distinct, the order of creation, and every
/// opacity in range.
pub proof fn lemma_remove_keeps_valid(s: Seq<NoteView>, i: int)
    requires
        distinct_ids(s),
        sorted_by_creation(s),
        opacities_in_range(s),
        0 <= i < s.len(),
    ensures
        distinct_ids(s.remove(i)),
        sorted_by_creation(s.remove(i)),
        opacities_in_range(s.remove(i)),
        !has_note(s.remove(i), s[i].id),
{
    let r = s.remove(i);
    assert forall|a: int| 0 <= a < r.len() implies in_range(#[trigger] r[a].opacity) by {
        let a0 = if a < i { a } else { a + 1 };
        assert(r[a] == s[a0]);
    }
    assert forall|a: int, b: int| 0 <= a < b < r.len() implies #[trigger] r[a].id
        != #[trigger] r[b].id by {
        let a0 = if a < i { a } else { a + 1 };
        let b0 = if b < i { b } else { b + 1 };
        assert(r[a] == s[a0] && r[b] == s[b0]);
    }
    assert forall|a: int, b: int| 0 <= a < b < r.len() implies text_le(
        #[trigger] r[a].created_at,
        #[trigger] r[b].created_at,
    ) by {
        let a0 = if a < i { a } else { a + 1 };
        let b0 = if b < i { b } else { b + 1 };
        assert(r[a] == s[a0] && r[b] == s[b0]);
    }
    if has_note(r, s[i].id) {
        let a = place_of(r, s[i].id);
        let a0 = if a < i { a } else { a + 1 };
        assert(r[a] == s[a0]);
        if a0 < i {
            assert(s[a0].id != s[i].id);
        } else {
            assert(s[i].id != s[a0].id);
        }
    }
}

/// Replacing a note by one with the same id changes what is found under
/// that id and nothing else.
pub proof fn lemma_replaced_note(s: Seq<NoteView>, i: int, m: NoteView)
    requires
        distinct_ids(s),
        0 <= i < s.len(),
        m.id == s[i].id,
    ensures
        distinct_ids(s.update(i, m)),
        forall|id: Seq<char>|
            #[trigger] note_with(s.update(i, m), id) == if id == m.id {
                Some(m)
            } else {
                note_with(s, id)
            },
{
    let r = s.update(i, m);
    assert forall|a: int, b: int| 0 <= a < b < r.len() implies #[trigger] r[a].id
        != #[trigger] r[b].id by {
        assert(r[a].id == s[a].id && r[b].id == s[b].id);
    }
    assert forall|id: Seq<char>|
        #[trigger] note_with(r, id) == if id == m.id {
            Some(m)
        } else {
            note_with(s, id)
        } by {
        if id == m.id {
            lemma_place_of(r, i);
        } else {
            if has_note(s, id) {
                let a = place_of(s, id);
                assert(r[a] == s[a]);
                lemma_place_of(r, a);
            }
            if has_note(r, id) {
                let a = place_of(r, id);
                assert(r[a] == s[a]);
                lemma_place_of(s, a);
            }
        }
    }
}

/// A note that is stored is found under its id, and what is found under
/// every other id stays.
pub proof fn lemma_stored_note_is_found(db: DatabaseView, n: NoteView)
    requires
        db.valid(),
        !has_note(db.notes, n.id),
        in_range(n.opacity),
    ensures
        db.with_note(n).valid(),
        db.with_note(n).notes.len() == db.notes.len() + 1,
        note_with(db.with_note(n).notes, n.id) == Some(n),
        forall|id: Seq<char>|
            id != n.id ==> #[trigger] note_with(db.with_note(n).notes, id) == note_with(
                db.notes,
                id,
            ),
{
    let s = db.notes;
    let k = landing_place(s, n.created_at);
    lemma_landing_place_splits(s, n.created_at);
    lemma_insert_keeps_valid(s, n);
    let r = s.insert(k, n);
    assert(r[k] == n);
    lemma_place_of(r, k);
    assert forall|id: Seq<char>| id != n.id implies #[trigger] note_with(r, id) == note_with(
        s,
        id,
    ) by {
        if has_note(s, id) {
            let a = place_of(s, id);
            let b = if a < k { a } else { a + 1 };
            assert(r[b] == s[a]);
            lemma_place_of(r, b);
        }
        if has_note(r, id) {
            let b = place_of(r, id);
            let a = if b < k { b } else { b - 1 };
            assert(r[b] == s[a]);
            lemma_place_of(s, a);
        }
    }
}

/// A note that was just created is fetched by its id as it was made: without
/// title and content, in mode "text", 300 by 200, and open.
pub proof fn lemma_created_note_is_fetched(
    db: DatabaseView,
    id: Seq<char>,
    now: Seq<char>,
    pos_x: i32,
    pos_y: i32,
    default_opacity: Option<u64>,
)
    requires
        db.valid(),
        !has_note(db.notes, id),
    ensures
        ({
            let n = fresh_note(id, now, pos_x, pos_y, default_opacity);
            &&& note_with(db.with_note(n).notes, id) == Some(n)
            &&& n.title.len() == 0
            &&& n.content.len() == 0
            &&& n.mode == crate::note::MODE_TEXT@
            &&& n.width == 300
            &&& n.height == 200
            &&& n.is_open
        }),
{
    lemma_stored_note_is_found(db, fresh_note(id, now, pos_x, pos_y, default_opacity));
}

/// A note that was deleted is no longer among the notes and is not found
/// under its id; what is found under every other id stays.
pub proof fn lemma_deleted_note_is_gone(db: DatabaseView, id: Seq<char>)
    requires
        db.valid(),
    ensures
        db.without(id).valid(),
        !has_note(db.without(id).notes, id),
        note_with(db.without(id).notes, id) is None,
        forall|other: Seq<char>|
            other != id ==> #[trigger] note_with(db.without(id).notes, other) == note_with(
                db.notes,
                other,
            ),
{
    let s = db.notes;
    if has_note(s, id) {
        let i = place_of(s, id);
        lemma_remove_keeps_valid(s, i);
        let r = s.remove(i);
        assert forall|other: Seq<char>| other != id implies #[trigger] note_with(r, other)
            == note_with(s, other) by {
            if has_note(s, other) {
                let a = place_of(s, other);
                let b = if a < i { a } else { a - 1 };
                assert(r[b] == s[a]);
                lemma_place_of(r, b);
            }
            if has_note(r, other) {
                let b = place_of(r, other);
                let a = if b < i { b } else { b + 1 };
                assert(r[b] == s[a]);
                lemma_place_of(s, a);
            }
        }
    }
}

/// An update changes the note with the given id as its writes say, and
/// leaves every other note and the number of notes as they were.
pub proof fn lemma_update_touches_one(
    db: DatabaseView,
    id: Seq<char>,
    ws: Seq<FieldWriteView>,
    now: Seq<char>,
)
    requires
        db.valid(),
    ensures
        db.with_writes(id, ws, now).valid(),
        db.with_writes(id, ws, now).notes.len() == db.notes.len(),
        note_with(db.with_writes(id, ws, now).notes, id) == match note_with(db.notes, id) {
            Some(n) => Some(writes_applied(n, ws, now)),
            None => None,
        },
        forall|other: Seq<char>|
            other != id ==> #[trigger] note_with(db.with_writes(id, ws, now).notes, other)
                == note_with(db.notes, other),
{
    let s = db.notes;
    if has_note(s, id) {
        let i = place_of(s, id);
        let m = writes_applied(s[i], ws, now);
        lemma_writes_keep_identity(s[i], ws, now);
        lemma_update_keeps_valid(s, i, m);
        lemma_replaced_note(s, i, m);
    }
}

/// Marking a note open or closed changes that of the note with the given id
/// and its time of update, and leaves every other note as it was.
pub proof fn lemma_open_touches_one(db: DatabaseView, id: Seq<char>, open: bool, now: Seq<char>)
    requires
        db.valid(),
    ensures
        db.with_open(id, open, now).valid(),
        db.with_open(id, open, now).notes.len() == db.notes.len(),
        note_with(db.with_open(id, open, now).notes, id) == match note_with(db.notes, id) {
            Some(n) => Some(NoteView { is_open: open, updated_at: now, ..n }),
            None => None,
        },
        forall|other: Seq<char>|
            other != id ==> #[trigger] note_with(db.with_open(id, open, now).notes, other)
                == note_with(db.notes, other),
{
    let s = db.notes;
    if has_note(s, id) {
        let i = place_of(s, id);
        let m = NoteView { is_open: open, updated_at: now, ..s[i] };
        lemma_update_keeps_valid(s, i, m);
        lemma_replaced_note(s, i, m);
    }
}

/// Two updates of one note, one after the other as the store's lock lets
/// them through, both take effect: the note is as after the writes of the
/// first, at its time, followed by the writes of the second, at its time.
pub proof fn lemma_updates_in_turn(
    db: DatabaseView,
    id: Seq<char>,
    first: Seq<FieldWriteView>,
    t1: Seq<char>,
    second: Seq<FieldWriteView>,
    t2: Seq<char>,
)
    requires
        db.valid(),
        has_note(db.notes, id),
    ensures
        note_with(db.with_writes(id, first, t1).with_writes(id, second, t2).notes, id) == Some(
            writes_applied(writes_applied(note_with(db.notes, id)->0, first, t1), second, t2),
        ),
{
    lemma_update_touches_one(db, id, first, t1);
    lemma_update_touches_one(db.with_writes(id, first, t1), id, second, t2);
}

/// An update of the title alone and an update of the content alone, made on
/// one note in either order, both take effect, and the note's time of update
/// is the time of the later one.
pub proof fn lemma_title_and_content_both_apply(
    db: DatabaseView,
    id: Seq<char>,
    title: Seq<char>,
    content: Seq<char>,
    t1: Seq<char>,
    t2: Seq<char>,
)
    requires
        db.valid(),
        has_note(db.notes, id),
    ensures
        ({
            let n = note_with(db.notes, id)->0;
            let want = NoteView { title, content, updated_at: t2, ..n };
            let tw = seq![FieldWriteView::Title(title)];
            let cw = seq![FieldWriteView::Content(content)];
            &&& note_with(db.with_writes(id, tw, t1).with_writes(id, cw, t2).notes, id) == Some(
                want,
            )
            &&& note_with(db.with_writes(id, cw, t1).with_writes(id, tw, t2).notes, id) == Some(
                want,
            )
        }),
{
    let n = note_with(db.notes, id)->0;
    let tw = seq![FieldWriteView::Title(title)];
    let cw = seq![FieldWriteView::Content(content)];
    lemma_updates_in_turn(db, id, tw, t1, cw, t2);
    lemma_updates_in_turn(db, id, cw, t1, tw, t2);
    reveal_with_fuel(writes_applied, 2);
    assert(tw.drop_first() =~= Seq::<FieldWriteView>::empty());
    assert(cw.drop_first() =~= Seq::<FieldWriteView>::empty());
}

/// The values of a list of settings: a later entry for a key replaces an
/// earlier one.
spec fn settings_map(s: Seq<Setting>) -> Map<Seq<char>, Seq<char>>
    decreases s.len(),
{
    if s.len() == 0 {
        Map::empty()
    } else {
        settings_map(s.drop_last()).insert(s.last().key@, s.last().value@)
    }
}

/// No two settings share a key.
spec fn distinct_keys(s: Seq<Setting>) -> bool {
    forall|i: int, j: int| 0 <= i < j < s.len() ==> #[trigger] s[i].key@ != #[trigger] s[j].key@
}

/// What the value of a list of settings holds: the keys that occur in the
/// list, and, where keys are distinct, each entry's value under its key.
proof fn lemma_settings_map(s: Seq<Setting>)
    ensures
        forall|k: Seq<char>| #[trigger]
            settings_map(s).dom().contains(k) <==> exists|i: int|
                0 <= i < s.len() && #[trigger] s[i].key@ == k,
        distinct_keys(s) ==> forall|i: int|
            0 <= i < s.len() ==> settings_map(s)[#[trigger] s[i].key@] == s[i].value@,
    decreases s.len(),
{
    if s.len() > 0 {
        let front = s.drop_last();
        lemma_settings_map(front);
        assert forall|k: Seq<char>| #[trigger]
            settings_map(s).dom().contains(k) <==> exists|i: int|
                0 <= i < s.len() && #[trigger] s[i].key@ == k by {
            let last = s.len() - 1;
            if settings_map(s).dom().contains(k) {
                if k != s[last].key@ {
                    assert(settings_map(front).dom().contains(k));
                    let i = choose|i: int| 0 <= i < front.len() && #[trigger] front[i].key@ == k;
                    assert(front[i] == s[i]);
                    assert(s[i].key@ == k);
                }
            }
            if exists|i: int| 0 <= i < s.len() && #[trigger] s[i].key@ == k {
                let i = choose|i: int| 0 <= i < s.len() && #[trigger] s[i].key@ == k;
                if i < last {
                    assert(front[i] == s[i]);
                    assert(front[i].key@ == k);
                    assert(settings_map(front).dom().contains(k));
                } else {
                    assert(k == s.last().key@);
                }
            }
        }
        if distinct_keys(s) {
            assert(distinct_keys(front)) by {
                assert forall|i: int, j: int| 0 <= i < j < front.len() implies #[trigger] front[i].key@
                    != #[trigger] front[j].key@ by {
                    assert(front[i] == s[i] && front[j] == s[j]);
                }
            }
            assert forall|i: int| 0 <= i < s.len() implies settings_map(s)[#[trigger] s[i].key@]
                == s[i].value@ by {
                let last = s.len() - 1;
                assert(s.last() == s[last]);
                assert(settings_map(s) == settings_map(front).insert(s[last].key@, s[last].value@));
                if i < last {
                    assert(s[i].key@ != s[last].key@);
                    assert(front[i] == s[i]);
                    assert(settings_map(front)[front[i].key@] == front[i].value@);
                }
            }
        }
    }
}

/// Replacing the value of one entry puts the new value under that entry's
/// key and leaves the other keys as they were.
proof fn lemma_settings_map_update(s: Seq<Setting>, i: int, e: Setting)
    requires
        distinct_keys(s),
        0 <= i < s.len(),
        e.key@ == s[i].key@,
    ensures
        distinct_keys(s.update(i, e)),
        settings_map(s.update(i, e)) == settings_map(s).insert(e.key@, e.value@),
{
    let r = s.update(i, e);
    assert forall|a: int, b: int| 0 <= a < b < r.len() implies #[trigger] r[a].key@
        != #[trigger] r[b].key@ by {
        assert(r[a].key@ == s[a].key@ && r[b].key@ == s[b].key@);
    }
    lemma_settings_map(s);
    lemma_settings_map(r);
    let want = settings_map(s).insert(e.key@, e.value@);
    assert forall|k: Seq<char>| settings_map(r).dom().contains(k) <==> want.dom().contains(k) by {
        if settings_map(r).dom().contains(k) {
            let a = choose|a: int| 0 <= a < r.len() && #[trigger] r[a].key@ == k;
            assert(s[a].key@ == k);
        }
        if settings_map(s).dom().contains(k) {
            let a = choose|a: int| 0 <= a < s.len() && #[trigger] s[a].key@ == k;
            assert(r[a].key@ == k);
        }
        if k == e.key@ {
            assert(r[i].key@ == k);
        }
    }
    assert forall|k: Seq<char>| settings_map(r).dom().contains(k) implies settings_map(r)[k]
        == want[k] by {
        let a = choose|a: int| 0 <= a < r.len() && #[trigger] r[a].key@ == k;
        assert(settings_map(r)[r[a].key@] == r[a].value@);
        if a != i {
            assert(settings_map(s)[s[a].key@] == s[a].value@);
            if a < i {
                assert(s[a].key@ != s[i].key@);
            } else {
                assert(s[i].key@ != s[a].key@);
            }
        }
    }
    assert(settings_map(r) =~= want);
}

/// The note store.
pub struct Database {
    notes: Vec<Note>,
    settings: Vec<Setting>,
}

impl View for Database {
    type V = DatabaseView;

    closed spec fn view(&self) -> DatabaseView {
        DatabaseView { notes: note_views(self.notes@), settings: settings_map(self.settings@) }
    }
}

impl Database {
    #[verifier::type_invariant]
    spec fn inv(self) -> bool {
        &&& distinct_ids(note_views(self.notes@))
        &&& sorted_by_creation(note_views(self.notes@))
        &&& opacities_in_range(note_views(self.notes@))
        &&& distinct_keys(self.settings@)
    }

    /// An empty store with the two settings every store starts with: the
    /// theme "light" and the default opacity "0.95".
    pub fn new() -> (db: Database)
        ensures
            db@.notes == Seq::<NoteView>::empty(),
            db@.settings == Map::<Seq<char>, Seq<char>>::empty().insert(
                THEME_KEY@,
                DEFAULT_THEME@,
            ).insert(DEFAULT_OPACITY_KEY@, DEFAULT_OPACITY_TEXT@),
            db@.valid(),
    {
        let mut settings: Vec<Setting> = Vec::new();
        settings.push(Setting { key: THEME_KEY.to_owned(), value: DEFAULT_THEME.to_owned() });
        settings.push(
            Setting { key: DEFAULT_OPACITY_KEY.to_owned(), value: DEFAULT_OPACITY_TEXT.to_owned() },
        );
        proof {
            reveal_strlit("theme");
            reveal_strlit("default_opacity");
            assert(THEME_KEY@.len() != DEFAULT_OPACITY_KEY@.len());
            reveal_with_fuel(settings_map, 3);
            assert(settings@.drop_last().drop_last() =~= Seq::<Setting>::empty());
            assert(settings@.drop_last().last() == settings@[0]);
        }
        let db = Database { notes: Vec::new(), settings };
        assert(db@.notes =~= Seq::<NoteView>::empty());
        db
    }

    /// Finds the place of the note with this id.
    fn find(&self, id: &str) -> (r: Option<usize>)
        ensures
            match r {
                Some(i) => i < self.notes@.len() && self.notes@[i as int].id@ == id@,
                None => forall|j: int| 0 <= j < self.notes@.len() ==> self.notes@[j].id@ != id@,
            },
    {
        let key = id.to_owned();
        let mut i: usize = 0;
        while i < self.notes.len()
            invariant
                i <= self.notes.len(),
                key@ == id@,
                forall|j: int| 0 <= j < i ==> self.notes@[j].id@ != id@,
            decreases self.notes.len() - i,
        {
            if self.notes[i].id == key {
                return Some(i);
            }
            i += 1;
        }
        None
    }

    /// What `find` tells of the store's value.
    proof fn lemma_found(self, id: Seq<char>, r: Option<usize>)
        requires
            self.inv(),
            match r {
                Some(i) => i < self.notes@.len() && self.notes@[i as int].id@ == id,
                None => forall|j: int| 0 <= j < self.notes@.len() ==> self.notes@[j].id@ != id,
            },
        ensures
            r is Some <==> has_note(self@.notes, id),
            r matches Some(i) ==> place_of(self@.notes, id) == i,
    {
        let s = self@.notes;
        match r {
            Some(i) => {
                assert(s[i as int].id == id);
                lemma_place_of(s, i as int);
            },
            None => {
                if has_note(s, id) {
                    let j = place_of(s, id);
                    assert(s[j].id == id);
                    assert(self.notes@[j].id@ != id);
                }
            },
        }
    }

    /// Tells whether the store holds a note with this id.
    pub fn contains(&self, id: &str) -> (r: bool)
        ensures
            r == has_note(self@.notes, id@),
            self@.valid(),
    {
        proof {
            use_type_invariant(self);
        }
        let found = self.find(id);
        proof {
            self.lemma_found(id@, found);
        }
        found.is_some()
    }

    /// The note with this id, if the store holds one.
    pub fn get_note(&self, id: &str) -> (r: Option<Note>)
        ensures
            opt_note_view(r) == note_with(self@.notes, id@),
            r matches Some(n) ==> n@.id == id@ && in_range(n@.opacity),
            self@.valid(),
    {
        proof {
            use_type_invariant(self);
        }
        let found = self.find(id);
        proof {
            self.lemma_found(id@, found);
        }
        match found {
            Some(i) => Some(self.notes[i].clone()),
            None => None,
        }
    }

    /// The notes that are marked open, in the order in which they were
    /// created.
    pub fn get_open_notes(&self) -> (r: Vec<Note>)
        ensures
            note_views(r@) == open_notes(self@.notes),
            self@.valid(),
    {
        proof {
            use_type_invariant(self);
        }
        let ghost all = note_views(self.notes@);
        let mut out: Vec<Note> = Vec::new();
        let mut i: usize = 0;
        proof {
            reveal(Seq::filter);
            assert(all.take(0) =~= Seq::<NoteView>::empty());
            assert(note_views(out@) =~= open_notes(all.take(0)));
        }
        while i < self.notes.len()
            invariant
                i <= self.notes.len(),
                all == note_views(self.notes@),
                note_views(out@) == open_notes(all.take(i as int)),
            decreases self.notes.len() - i,
        {
            let ghost before = out@;
            proof {
                reveal(Seq::filter);
                assert(all.take(i as int + 1).drop_last() =~= all.take(i as int));
                assert(all.take(i as int + 1).last() == self.notes@[i as int]@);
            }
            if self.notes[i].is_open {
                out.push(self.notes[i].clone());
                proof {
                    assert(note_views(before).len() == before.len());
                    assert(note_views(out@) =~= note_views(before).push(self.notes@[i as int]@));
                }
            }
            i += 1;
        }
        assert(all.take(i as int) =~= all);
        out
    }

    /// Stores a whole record, as when the store is filled from what was saved
    /// earlier. The record goes behind the notes created at or before it,
    /// with its opacity clamped to the range of opacities. A record whose id
    /// is already stored is refused.
    pub fn insert_note(&mut self, note: Note) -> (r: Result<(), StoreError>)
        ensures
            final(self)@.valid(),
            match r {
                Ok(()) => {
                    &&& !has_note(old(self)@.notes, note@.id)
                    &&& final(self)@ == old(self)@.with_note(stored_note(note@))
                },
                Err(e) => {
                    &&& e == StoreError::DuplicateId
                    &&& has_note(old(self)@.notes, note@.id)
                    &&& final(self)@ == old(self)@
                },
            },
    {
        proof {
            use_type_invariant(&*self);
        }
        let found = self.find(note.id.as_str());
        proof {
            self.lemma_found(note.id@, found);
        }
        if found.is_some() {
            return Err(StoreError::DuplicateId);
        }
        let mut kept = note;
        kept.opacity = clamp_opacity(kept.opacity);
        assert(kept@ == stored_note(note@));
        let mut k: usize = 0;
        while k < self.notes.len() && text_at_or_before(
            self.notes[k].created_at.as_str(),
            kept.created_at.as_str(),
        )
            invariant
                k <= self.notes.len(),
                forall|j: int|
                    0 <= j < k ==> text_le(
                        #[trigger] note_views(self.notes@)[j].created_at,
                        kept@.created_at,
                    ),
            decreases self.notes.len() - k,
        {
            k += 1;
        }
        proof {
            let s = note_views(self.notes@);
            assert(k < s.len() ==> s[k as int] == self.notes@[k as int]@);
            lemma_landing_place(s, kept@.created_at, k as int);
            lemma_insert_keeps_valid(s, kept@);
            assert(note_views(self.notes@.insert(k as int, kept)) =~= s.insert(k as int, kept@));
        }
        let mut notes: Vec<Note> = Vec::new();
        assert(note_views(notes@) =~= Seq::<NoteView>::empty());
        core::mem::swap(&mut self.notes, &mut notes);
        notes.insert(k, kept);
        self.notes = notes;
        Ok(())
    }

    /// Stores a new note under the given id, created at time `now`. An id
    /// that is already stored is refused.
    pub fn create_note_with(
        &mut self,
        id: String,
        now: String,
        pos_x: i32,
        pos_y: i32,
        default_opacity: Option<u64>,
    ) -> (r: Result<Note, StoreError>)
        ensures
            final(self)@.valid(),
            match r {
                Ok(n) => {
                    &&& n@ == fresh_note(id@, now@, pos_x, pos_y, default_opacity)
                    &&& !has_note(old(self)@.notes, id@)
                    &&& final(self)@ == old(self)@.with_note(n@)
                },
                Err(e) => {
                    &&& e == StoreError::DuplicateId
                    &&& has_note(old(self)@.notes, id@)
                    &&& final(self)@ == old(self)@
                },
            },
    {
        let note = Note::fresh(id, now, pos_x, pos_y, default_opacity);
        let copy = note.clone();
        match self.insert_note(note) {
            Ok(()) => Ok(copy),
            Err(e) => Err(e),
        }
    }

    /// Stores a new note at the given position, under a fresh id and with the
    /// current time as its creation time. `default_opacity` is the opacity
    /// that the settings name for new notes, where the caller could read one.
    ///
    /// The id is drawn at random and the time is read from the clock, so the
    /// contract fixes the note by its own id and creation time. Should the
    /// drawn id be stored already, the store refuses it and stays as it was;
    /// that can only happen to a store that holds an id of the drawn shape,
    /// so on any other store, the empty one included, the note is made.
    pub fn create_note(
        &mut self,
        pos_x: i32,
        pos_y: i32,
        default_opacity: Option<u64>,
    ) -> (r: Result<Note, StoreError>)
        ensures
            final(self)@.valid(),
            match r {
                Ok(n) => {
                    &&& is_uuid_text(n@.id)
                    &&& n@ == fresh_note(n@.id, n@.created_at, pos_x, pos_y, default_opacity)
                    &&& in_range(n@.opacity)
                    &&& !has_note(old(self)@.notes, n@.id)
                    &&& final(self)@ == old(self)@.with_note(n@)
                },
                Err(e) => {
                    &&& e == StoreError::DuplicateId
                    &&& final(self)@ == old(self)@
                    &&& exists|id: Seq<char>|
                        is_uuid_text(id) && #[trigger] has_note(old(self)@.notes, id)
                },
            },
    {
        let id = fresh_id();
        let now = now_rfc3339();
        self.create_note_with(id, now, pos_x, pos_y, default_opacity)
    }

    /// Carries out a list of field writes on the note with this id, all at
    /// time `now`, as one step. Where no note has this id, nothing changes.
    pub fn apply_writes(&mut self, id: &str, writes: &Vec<FieldWrite>, now: &str)
        ensures
            final(self)@.valid(),
            final(self)@ == old(self)@.with_writes(id@, write_views(writes@), now@),
    {
        proof {
            use_type_invariant(&*self);
        }
        let found = self.find(id);
        proof {
            self.lemma_found(id@, found);
        }
        if let Some(i) = found {
            let mut notes: Vec<Note> = Vec::new();
            assert(note_views(notes@) =~= Seq::<NoteView>::empty());
            core::mem::swap(&mut self.notes, &mut notes);
            let ghost before = note_views(notes@);
            let mut n = notes[i].clone();
            n.apply_all(writes, now);
            proof {
                lemma_writes_keep_identity(before[i as int], write_views(writes@), now@);
                lemma_update_keeps_valid(before, i as int, n@);
                assert(note_views(notes@.update(i as int, n)) =~= before.update(i as int, n@));
            }
            notes[i] = n;
            self.notes = notes;
        }
    }

    /// Updates the fields that are given on the note with this id, each
    /// whatever else is given, and sets its time of update to the current
    /// time if any field is given. All writes of one call take effect
    /// together. Where no note has this id, nothing changes.
    pub fn update_note(
        &mut self,
        id: &str,
        title: Option<&str>,
        content: Option<&str>,
        mode: Option<&str>,
        pos_x: Option<i32>,
        pos_y: Option<i32>,
        width: Option<i32>,
        height: Option<i32>,
        opacity: Option<u64>,
        always_on_top: Option<bool>,
    )
        ensures
            final(self)@.valid(),
            exists|now: Seq<char>|
                {
                    &&& final(self)@ == #[trigger] old(self)@.with_writes(
                        id@,
                        planned_writes(
                            opt_text(title),
                            opt_text(content),
                            opt_text(mode),
                            pos_x,
                            pos_y,
                            width,
                            height,
                            opacity,
                            always_on_top,
                        ),
                        now,
                    )
                    &&& note_with(final(self)@.notes, id@) == match note_with(
                        old(self)@.notes,
                        id@,
                    ) {
                        Some(n) => Some(
                            updated_note(
                                n,
                                opt_text(title),
                                opt_text(content),
                                opt_text(mode),
                                pos_x,
                                pos_y,
                                width,
                                height,
                                opacity,
                                always_on_top,
                                now,
                            ),
                        ),
                        None => None,
                    }
                },
    {
        proof {
            use_type_invariant(&*self);
        }
        let now = now_rfc3339();
        let writes = field_writes(
            title,
            content,
            mode,
            pos_x,
            pos_y,
            width,
            height,
            opacity,
            always_on_top,
        );
        self.apply_writes(id, &writes, now.as_str());
        proof {
            let planned = planned_writes(
                opt_text(title),
                opt_text(content),
                opt_text(mode),
                pos_x,
                pos_y,
                width,
                height,
                opacity,
                always_on_top,
            );
            lemma_update_touches_one(old(self)@, id@, planned, now@);
            if let Some(n) = note_with(old(self)@.notes, id@) {
                lemma_planned_writes_applied(
                    n,
                    opt_text(title),
                    opt_text(content),
                    opt_text(mode),
                    pos_x,
                    pos_y,
                    width,
                    height,
                    opacity,
                    always_on_top,
                    now@,
                );
            }
            assert(final(self)@ == old(self)@.with_writes(id@, planned, now@));
        }
    }

    /// Marks the note with this id open or closed at time `now`. Where no
    /// note has this id, nothing changes.
    pub fn set_open_at(&mut self, id: &str, open: bool, now: &str)
        ensures
            final(self)@.valid(),
            final(self)@ == old(self)@.with_open(id@, open, now@),
    {
        proof {
            use_type_invariant(&*self);
        }
        let found = self.find(id);
        proof {
            self.lemma_found(id@, found);
        }
        if let Some(i) = found {
            let mut notes: Vec<Note> = Vec::new();
            assert(note_views(notes@) =~= Seq::<NoteView>::empty());
            core::mem::swap(&mut self.notes, &mut notes);
            let ghost before = note_views(notes@);
            let mut n = notes[i].clone();
            n.set_open(open, now);
            proof {
                lemma_update_keeps_valid(before, i as int, n@);
                assert(note_views(notes@.update(i as int, n)) =~= before.update(i as int, n@));
            }
            notes[i] = n;
            self.notes = notes;
        }
    }

    /// Marks the note with this id open, as of the current time.
    pub fn open_note(&mut self, id: &str)
        ensures
            final(self)@.valid(),
            exists|now: Seq<char>| final(self)@ == #[trigger] old(self)@.with_open(id@, true, now),
    {
        let now = now_rfc3339();
        self.set_open_at(id, true, now.as_str());
    }

    /// Marks the note with this id closed, as of the current time.
    pub fn close_note(&mut self, id: &str)
        ensures
            final(self)@.valid(),
            exists|now: Seq<char>| final(self)@ == #[trigger] old(self)@.with_open(id@, false, now),
    {
        let now = now_rfc3339();
        self.set_open_at(id, false, now.as_str());
    }

    /// Gives every note the same opacity, all at time `now`.
    pub fn set_all_opacity_at(&mut self, opacity: u64, now: &str)
        ensures
            final(self)@.valid(),
            final(self)@ == old(self)@.with_all_opacity(opacity, now@),
    {
        proof {
            use_type_invariant(&*self);
        }
        let ghost start = self@.notes;
        let write = FieldWrite::Opacity(opacity);
        let mut notes: Vec<Note> = Vec::new();
        assert(note_views(notes@) =~= Seq::<NoteView>::empty());
        core::mem::swap(&mut self.notes, &mut notes);
        let mut i: usize = 0;
        while i < notes.len()
            invariant
                i <= notes.len(),
                notes@.len() == start.len(),
                write@ == FieldWriteView::Opacity(opacity),
                forall|j: int|
                    0 <= j < i ==> (#[trigger] notes@[j])@ == write_applied(start[j], write@, now@),
                forall|j: int| i <= j < notes@.len() ==> (#[trigger] notes@[j])@ == start[j],
            decreases notes.len() - i,
        {
            let mut n = notes[i].clone();
            n.apply(&write, now);
            notes[i] = n;
            i += 1;
        }
        proof {
            let after = old(self)@.with_all_opacity(opacity, now@).notes;
            assert(note_views(notes@) =~= after);
            assert forall|a: int, b: int| 0 <= a < b < after.len() implies #[trigger] after[a].id
                != #[trigger] after[b].id by {
                assert(after[a].id == start[a].id && after[b].id == start[b].id);
            }
            assert forall|a: int, b: int| 0 <= a < b < after.len() implies text_le(
                #[trigger] after[a].created_at,
                #[trigger] after[b].created_at,
            ) by {
                assert(after[a].created_at == start[a].created_at && after[b].created_at
                    == start[b].created_at);
            }
        }
        self.notes = notes;
    }

    /// Gives every note the same opacity, as of the current time.
    pub fn set_all_opacity(&mut self, opacity: u64)
        ensures
            final(self)@.valid(),
            exists|now: Seq<char>|
                final(self)@ == #[trigger] old(self)@.with_all_opacity(opacity, now),
    {
        let now = now_rfc3339();
        self.set_all_opacity_at(opacity, now.as_str());
    }

    /// Removes the note with this id, if the store holds one.
    pub fn delete_note(&mut self, id: &str)
        ensures
            final(self)@.valid(),
            final(self)@ == old(self)@.without(id@),
            !has_note(final(self)@.notes, id@),
    {
        proof {
            use_type_invariant(&*self);
        }
        let found = self.find(id);
        proof {
            self.lemma_found(id@, found);
        }
        if let Some(i) = found {
            let mut notes: Vec<Note> = Vec::new();
            assert(note_views(notes@) =~= Seq::<NoteView>::empty());
            core::mem::swap(&mut self.notes, &mut notes);
            proof {
                let before = note_views(notes@);
                lemma_remove_keeps_valid(before, i as int);
                assert(note_views(notes@.remove(i as int)) =~= before.remove(i as int));
            }
            notes.remove(i);
            self.notes = notes;
        }
    }

    /// Finds the place of the setting with this key.
    fn find_setting(&self, key: &str) -> (r: Option<usize>)
        ensures
            match r {
                Some(i) => i < self.settings@.len() && self.settings@[i as int].key@ == key@,
                None => forall|j: int|
                    0 <= j < self.settings@.len() ==> self.settings@[j].key@ != key@,
            },
    {
        let wanted = key.to_owned();
        let mut i: usize = 0;
        while i < self.settings.len()
            invariant
                i <= self.settings.len(),
                wanted@ == key@,
                forall|j: int| 0 <= j < i ==> self.settings@[j].key@ != key@,
            decreases self.settings.len() - i,
        {
            if self.settings[i].key == wanted {
                return Some(i);
            }
            i += 1;
        }
        None
    }

    /// The value stored under this key. A key under which nothing is stored
    /// is an error.
    pub fn get_setting(&self, key: &str) -> (r: Result<String, StoreError>)
        ensures
            match r {
                Ok(v) => self@.settings.contains_key(key@) && v@ == self@.settings[key@],
                Err(e) => e == StoreError::MissingSetting && !self@.settings.contains_key(key@),
            },
    {
        proof {
            use_type_invariant(self);
            lemma_settings_map(self.settings@);
        }
        match self.find_setting(key) {
            Some(i) => {
                assert(self.settings@[i as int].key@ == key@);
                Ok(self.settings[i].value.clone())
            },
            None => Err(StoreError::MissingSetting),
        }
    }

    /// Stores `value` under `key`, in place of whatever was there.
    pub fn set_setting(&mut self, key: &str, value: &str)
        ensures
            final(self)@.valid(),
            final(self)@ == old(self)@.with_setting(key@, value@),
    {
        proof {
            use_type_invariant(&*self);
        }
        let found = self.find_setting(key);
        let entry = Setting { key: key.to_owned(), value: value.to_owned() };
        let mut settings: Vec<Setting> = Vec::new();
        core::mem::swap(&mut self.settings, &mut settings);
        match found {
            Some(i) => {
                proof {
                    lemma_settings_map_update(settings@, i as int, entry);
                }
                settings[i] = entry;
            },
            None => {
                proof {
                    let r = settings@.push(entry);
                    assert(settings@ == old(self).settings@);
                    assert(distinct_keys(settings@));
                    assert(r.drop_last() =~= settings@);
                    assert forall|a: int, b: int| 0 <= a < b < r.len() implies #[trigger] r[a].key@
                        != #[trigger] r[b].key@ by {
                        assert(r[a] == settings@[a]);
                        if b < settings@.len() {
                            assert(r[b] == settings@[b]);
                            assert(settings@[a].key@ != settings@[b].key@);
                        } else {
                            assert(r[b] == entry);
                            assert(settings@[a].key@ != key@);
                        }
                    }
                    assert(distinct_keys(r));
                    assert(settings_map(r) == settings_map(settings@).insert(key@, value@));
                }
                settings.push(entry);
            },
        }
        self.settings = settings;
    }

    /// The opacity of new notes that the settings name, as `parse` reads it
    /// from the setting's text; none where the setting is missing. Reading
    /// a number from text is the caller's business.
    pub fn default_opacity<F: Fn(&str) -> Option<u64>>(&self, parse: F) -> (r: Option<u64>)
        requires
            forall|text: &str| call_requires(parse, (text,)),
        ensures
            if self@.settings.contains_key(DEFAULT_OPACITY_KEY@) {
                exists|text: &str|
                    text@ == self@.settings[DEFAULT_OPACITY_KEY@] && #[trigger] call_ensures(
                        parse,
                        (text,),
                        r,
                    )
            } else {
                r is None
            },
    {
        match self.get_setting(DEFAULT_OPACITY_KEY) {
            Ok(text) => parse(text.as_str()),
            Err(_) => None,
        }
    }

    /// The settings as one value: the stored theme, or "light" where none is
    /// stored, and the default opacity that the caller read from the
    /// setting's text, clamped, or 0.95 where it could read none.
    pub fn get_settings(&self, default_opacity: Option<u64>) -> (r: Settings)
        ensures
            r@.theme == if self@.settings.contains_key(THEME_KEY@) {
                self@.settings[THEME_KEY@]
            } else {
                DEFAULT_THEME@
            },
            r@.default_opacity == default_or(default_opacity),
            in_range(r@.default_opacity),
    {
        let theme = match self.get_setting(THEME_KEY) {
            Ok(t) => t,
            Err(_) => DEFAULT_THEME.to_owned(),
        };
        Settings { theme, default_opacity: clamp_default(default_opacity) }
    }

    /// The notes in the order in which they were created.
    pub fn get_all_notes(&self) -> (r: Vec<Note>)
        ensures
            note_views(r@) == self@.notes,
            forall|i: int| 0 <= i < r@.len() ==> in_range((#[trigger] r@[i])@.opacity),
            self@.valid(),
    {
        proof {
            use_type_invariant(self);
        }
        let r = clone_notes(&self.notes);
        proof {
            assert forall|i: int| 0 <= i < r@.len() implies in_range(
                (#[trigger] r@[i])@.opacity,
            ) by {
                assert(note_views(r@).len() == r@.len());
                assert(note_views(r@)[i] == r@[i]@);
                assert(self@.notes[i] == r@[i]@);
            }
        }
        r
    }
}

} // verus!
