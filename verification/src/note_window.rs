//! Reconciling note records with live windows.
//!
//! The functions here work on a [`WindowSet`], the set of live windows as the
//! caller saw it, and say which windows to build, hide or show. They change
//! the set to what it is once the caller has done so.

use crate::db::{open_notes, Database};
use crate::ident::{is_lower_hex, is_uuid_text};
use crate::note::{note_views, Note, NoteView};
use crate::text::{lemma_replaced_without, replace_all, replaced};
use vstd::prelude::*;
use vstd::string::{StrSliceExecFns, StringExecFns};

verus! {

/// What the label of every note window starts with.
pub const NOTE_PREFIX: &'static str = "note-";

/// What the address of every note's page starts with.
pub const NOTE_URL_PREFIX: &'static str = "/#/note/";

/// The title of every note window.
pub const WINDOW_TITLE: &'static str = "HoverThought HUD";

/// The least width of a note window.
pub const MIN_WIDTH: i32 = 200;

/// The least height of a note window.
pub const MIN_HEIGHT: i32 = 150;

/// The label of the window of the note with this id.
pub open spec fn label_of(id: Seq<char>) -> Seq<char> {
    NOTE_PREFIX@ + id
}

/// The label belongs to a note window.
pub open spec fn is_note_label(label: Seq<char>) -> bool {
    NOTE_PREFIX@.is_prefix_of(label)
}

/// The id of the note whose window has this label: the label without the
/// prefix of note windows, wherever it occurs.
pub open spec fn id_of_label(label: Seq<char>) -> Seq<char> {
    replaced(label, NOTE_PREFIX@, Seq::empty())
}

/// The label of the window of the note with this id.
pub fn window_label(id: &str) -> (label: String)
    ensures
        label@ == label_of(id@),
        is_note_label(label@),
{
    let label = NOTE_PREFIX.to_owned().concat(id);
    assert(label@.subrange(0, NOTE_PREFIX@.len() as int) =~= NOTE_PREFIX@);
    label
}

/// The address of the page that shows the note with this id.
pub fn note_url(id: &str) -> (url: String)
    ensures
        url@ == NOTE_URL_PREFIX@ + id@,
{
    NOTE_URL_PREFIX.to_owned().concat(id)
}

/// Tells whether a label belongs to a note window.
pub fn has_note_prefix(label: &str) -> (r: bool)
    ensures
        r == is_note_label(label@),
{
    proof {
        reveal_strlit("note-");
    }
    let n = label.unicode_len();
    if n < 5 {
        return false;
    }
    let r = label.get_char(0) == 'n' && label.get_char(1) == 'o' && label.get_char(2) == 't'
        && label.get_char(3) == 'e' && label.get_char(4) == '-';
    proof {
        if r {
            assert(label@.subrange(0, 5) =~= NOTE_PREFIX@);
        } else {
            if is_note_label(label@) {
                let p = label@.subrange(0, 5);
                assert(p[0] == label@[0] && p[1] == label@[1] && p[2] == label@[2] && p[3]
                    == label@[3] && p[4] == label@[4]);
            }
        }
    }
    r
}

/// The id of the note whose window has this label.
pub fn note_id_of(label: &str) -> (id: String)
    ensures
        id@ == id_of_label(label@),
{
    proof {
        reveal_strlit("note-");
        reveal_strlit("");
        assert(""@ =~= Seq::<char>::empty());
    }
    replace_all(label, NOTE_PREFIX, "")
}

/// From the label of a note's window the note's id is had again, for every
/// id in which the letter `n` does not occur.
pub proof fn lemma_id_of_label(id: Seq<char>)
    requires
        forall|i: int| 0 <= i < id.len() ==> id[i] != 'n',
    ensures
        id_of_label(label_of(id)) == id,
{
    reveal_strlit("note-");
    let p = NOTE_PREFIX@;
    let l = label_of(id);
    assert(l.subrange(0, p.len() as int) =~= p);
    assert(l.subrange(p.len() as int, l.len() as int) =~= id);
    lemma_replaced_without(id, p, Seq::empty());
    assert(Seq::<char>::empty() + id =~= id);
}

/// From the label of a note's window the note's id is had again, for every
/// id that the store draws.
pub proof fn lemma_id_of_label_of_uuid(id: Seq<char>)
    requires
        is_uuid_text(id),
    ensures
        id_of_label(label_of(id)) == id,
{
    assert forall|i: int| 0 <= i < id.len() implies id[i] != 'n' by {
        if i == 8 || i == 13 || i == 18 || i == 23 {
            assert(id[i] == '-');
        } else {
            assert(is_lower_hex(id[i]));
        }
    }
    lemma_id_of_label(id);
}

/// One live window as the caller saw it.
#[derive(Debug)]
pub struct LiveWindow {
    pub label: String,
    pub visible: bool,
    pub minimized: bool,
    pub always_on_top: bool,
}

/// The mathematical value of a [`LiveWindow`].
pub struct LiveWindowView {
    pub label: Seq<char>,
    pub visible: bool,
    pub minimized: bool,
    pub always_on_top: bool,
}

impl View for LiveWindow {
    type V = LiveWindowView;

    open spec fn view(&self) -> LiveWindowView {
        LiveWindowView {
            label: self.label@,
            visible: self.visible,
            minimized: self.minimized,
            always_on_top: self.always_on_top,
        }
    }
}

impl Clone for LiveWindow {
    fn clone(&self) -> (r: Self)
        ensures
            r@ == self@,
    {
        LiveWindow {
            label: self.label.clone(),
            visible: self.visible,
            minimized: self.minimized,
            always_on_top: self.always_on_top,
        }
    }
}

/// What the caller builds a note's window from.
#[derive(Debug)]
pub struct WindowSpec {
    pub label: String,
    pub url: String,
    pub title: String,
    pub decorations: bool,
    pub transparent: bool,
    pub always_on_top: bool,
    pub x: i32,
    pub y: i32,
    pub width: i32,
    pub height: i32,
    pub min_width: i32,
    pub min_height: i32,
    pub visible: bool,
}

/// The mathematical value of a [`WindowSpec`].
pub struct WindowSpecView {
    pub label: Seq<char>,
    pub url: Seq<char>,
    pub title: Seq<char>,
    pub decorations: bool,
    pub transparent: bool,
    pub always_on_top: bool,
    pub x: int,
    pub y: int,
    pub width: int,
    pub height: int,
    pub min_width: int,
    pub min_height: int,
    pub visible: bool,
}

impl View for WindowSpec {
    type V = WindowSpecView;

    open spec fn view(&self) -> WindowSpecView {
        WindowSpecView {
            label: self.label@,
            url: self.url@,
            title: self.title@,
            decorations: self.decorations,
            transparent: self.transparent,
            always_on_top: self.always_on_top,
            x: self.x as int,
            y: self.y as int,
            width: self.width as int,
            height: self.height as int,
            min_width: self.min_width as int,
            min_height: self.min_height as int,
            visible: self.visible,
        }
    }
}

/// The values of a list of windows, in order.
pub open spec fn window_views(s: Seq<LiveWindow>) -> Seq<LiveWindowView> {
    Seq::new(s.len(), |i: int| s[i]@)
}

/// The values of a list of window specs, in order.
pub open spec fn spec_views(s: Seq<WindowSpec>) -> Seq<WindowSpecView> {
    Seq::new(s.len(), |i: int| s[i]@)
}

/// The values of a list of texts, in order.
pub open spec fn texts(s: Seq<String>) -> Seq<Seq<char>> {
    Seq::new(s.len(), |i: int| s[i]@)
}

/// No two windows share a label.
pub open spec fn distinct_labels(s: Seq<LiveWindowView>) -> bool {
    forall|i: int, j: int| 0 <= i < j < s.len() ==> #[trigger] s[i].label != #[trigger] s[j].label
}

/// A window with this label is live.
pub open spec fn has_window(s: Seq<LiveWindowView>, label: Seq<char>) -> bool {
    exists|i: int| 0 <= i < s.len() && #[trigger] s[i].label == label
}

/// The place of the window with this label, where there is one.
pub open spec fn window_place(s: Seq<LiveWindowView>, label: Seq<char>) -> int {
    choose|i: int| 0 <= i < s.len() && #[trigger] s[i].label == label
}

/// Where a window has its label at place `i` and labels are distinct, that
/// is its place.
pub proof fn lemma_window_place(s: Seq<LiveWindowView>, i: int)
    requires
        distinct_labels(s),
        0 <= i < s.len(),
    ensures
        has_window(s, s[i].label),
        window_place(s, s[i].label) == i,
{
    let label = s[i].label;
    let j = window_place(s, label);
    assert(0 <= j < s.len() && s[j].label == label);
    if j < i {
        assert(s[j].label != s[i].label);
    } else if i < j {
        assert(s[i].label != s[j].label);
    }
}

/// The window that is built for a note: visible, not minimized, on top as
/// the note says.
pub open spec fn window_for(n: NoteView) -> LiveWindowView {
    LiveWindowView {
        label: label_of(n.id),
        visible: true,
        minimized: false,
        always_on_top: n.always_on_top,
    }
}

/// What a note's window is built from: placed and sized as the note says,
/// without decorations, transparent, visible, and no smaller than 200 by 150.
pub open spec fn window_spec_for(n: NoteView) -> WindowSpecView {
    WindowSpecView {
        label: label_of(n.id),
        url: NOTE_URL_PREFIX@ + n.id,
        title: WINDOW_TITLE@,
        decorations: false,
        transparent: true,
        always_on_top: n.always_on_top,
        x: n.pos_x,
        y: n.pos_y,
        width: n.width,
        height: n.height,
        min_width: MIN_WIDTH as int,
        min_height: MIN_HEIGHT as int,
        visible: true,
    }
}

/// The live windows once a note has its window: as before where it had one,
/// else with the note's window added.
pub open spec fn ensured(s: Seq<LiveWindowView>, n: NoteView) -> Seq<LiveWindowView> {
    if has_window(s, label_of(n.id)) {
        s
    } else {
        s.push(window_for(n))
    }
}

/// The live windows without the one with this label.
pub open spec fn closed(s: Seq<LiveWindowView>, label: Seq<char>) -> Seq<LiveWindowView> {
    if has_window(s, label) {
        s.remove(window_place(s, label))
    } else {
        s
    }
}

/// The live windows after the one with this label was put on top, or taken
/// from the top.
pub open spec fn topped(
    s: Seq<LiveWindowView>,
    label: Seq<char>,
    on_top: bool,
) -> Seq<LiveWindowView> {
    if has_window(s, label) {
        let i = window_place(s, label);
        s.update(i, LiveWindowView { always_on_top: on_top, ..s[i] })
    } else {
        s
    }
}

/// The set of live windows, as the caller saw it.
pub struct WindowSet {
    windows: Vec<LiveWindow>,
}

impl View for WindowSet {
    type V = Seq<LiveWindowView>;

    closed spec fn view(&self) -> Seq<LiveWindowView> {
        window_views(self.windows@)
    }
}

impl WindowSet {
    #[verifier::type_invariant]
    spec fn inv(self) -> bool {
        distinct_labels(window_views(self.windows@))
    }

    /// No window at all.
    pub fn new() -> (r: WindowSet)
        ensures
            r@ == Seq::<LiveWindowView>::empty(),
    {
        let r = WindowSet { windows: Vec::new() };
        assert(r@ =~= Seq::<LiveWindowView>::empty());
        r
    }

    /// The number of live windows.
    pub fn len(&self) -> (n: usize)
        ensures
            n == self@.len(),
            distinct_labels(self@),
    {
        proof {
            use_type_invariant(self);
        }
        self.windows.len()
    }

    /// Finds the place of the window with this label.
    fn find(&self, label: &str) -> (r: Option<usize>)
        ensures
            distinct_labels(self@),
            r is Some <==> has_window(self@, label@),
            r matches Some(i) ==> i < self@.len() && self@[i as int].label == label@ && window_place(
                self@,
                label@,
            ) == i,
    {
        proof {
            use_type_invariant(self);
        }
        let wanted = label.to_owned();
        let mut i: usize = 0;
        while i < self.windows.len()
            invariant
                i <= self.windows.len(),
                wanted@ == label@,
                distinct_labels(self@),
                forall|j: int| 0 <= j < i ==> self.windows@[j].label@ != label@,
            decreases self.windows.len() - i,
        {
            if self.windows[i].label == wanted {
                proof {
                    assert(self@[i as int].label == label@);
                    lemma_window_place(self@, i as int);
                }
                return Some(i);
            }
            i += 1;
        }
        proof {
            if has_window(self@, label@) {
                let j = window_place(self@, label@);
                assert(self.windows@[j].label@ != label@);
            }
        }
        None
    }

    /// Tells whether a window with this label is live.
    pub fn contains(&self, label: &str) -> (r: bool)
        ensures
            r == has_window(self@, label@),
            distinct_labels(self@),
    {
        self.find(label).is_some()
    }

    /// The live windows, in the order in which the set holds them.
    pub fn windows(&self) -> (r: Vec<LiveWindow>)
        ensures
            window_views(r@) == self@,
            distinct_labels(self@),
    {
        proof {
            use_type_invariant(self);
        }
        let mut out: Vec<LiveWindow> = Vec::new();
        let mut i: usize = 0;
        while i < self.windows.len()
            invariant
                i <= self.windows.len(),
                out@.len() == i,
                forall|j: int| 0 <= j < i ==> (#[trigger] out@[j])@ == self.windows@[j]@,
            decreases self.windows.len() - i,
        {
            out.push(self.windows[i].clone());
            i += 1;
        }
        assert(window_views(out@) =~= self@);
        out
    }

    /// Takes a window into the set. A window whose label is live already is
    /// refused, and the set stays as it was.
    pub fn add(&mut self, window: LiveWindow) -> (added: bool)
        ensures
            distinct_labels(final(self)@),
            added == !has_window(old(self)@, window@.label),
            final(self)@ == if added {
                old(self)@.push(window@)
            } else {
                old(self)@
            },
    {
        if self.find(window.label.as_str()).is_some() {
            return false;
        }
        let mut ws: Vec<LiveWindow> = Vec::new();
        assert(window_views(ws@) =~= Seq::<LiveWindowView>::empty());
        core::mem::swap(&mut self.windows, &mut ws);
        proof {
            let before = window_views(ws@);
            let after = before.push(window@);
            assert(window_views(ws@.push(window)) =~= after);
            assert forall|i: int, j: int| 0 <= i < j < after.len() implies #[trigger] after[i].label
                != #[trigger] after[j].label by {
                assert(after[i] == before[i]);
                if j < before.len() {
                    assert(after[j] == before[j]);
                }
            }
        }
        ws.push(window);
        self.windows = ws;
        true
    }

    /// Notes that the window with this label was put on top of the others,
    /// or no longer is. Where no window has this label, nothing changes.
    pub fn set_always_on_top(&mut self, label: &str, on_top: bool) -> (done: bool)
        ensures
            distinct_labels(final(self)@),
            done == has_window(old(self)@, label@),
            final(self)@ == topped(old(self)@, label@, on_top),
    {
        match self.find(label) {
            Some(i) => {
                let mut ws: Vec<LiveWindow> = Vec::new();
                assert(window_views(ws@) =~= Seq::<LiveWindowView>::empty());
                core::mem::swap(&mut self.windows, &mut ws);
                let mut w = ws[i].clone();
                w.always_on_top = on_top;
                proof {
                    let before = window_views(ws@);
                    let after = before.update(i as int, w@);
                    assert(window_views(ws@.update(i as int, w)) =~= after);
                    assert forall|a: int, b: int| 0 <= a < b < after.len() implies #[trigger] after[a].label
                        != #[trigger] after[b].label by {
                        assert(after[a].label == before[a].label && after[b].label
                            == before[b].label);
                    }
                }
                ws[i] = w;
                self.windows = ws;
                true
            },
            None => false,
        }
    }

    /// Takes the window with this label out of the set, if it is live.
    pub fn remove(&mut self, label: &str) -> (removed: bool)
        ensures
            distinct_labels(final(self)@),
            removed == has_window(old(self)@, label@),
            final(self)@ == closed(old(self)@, label@),
            !has_window(final(self)@, label@),
    {
        match self.find(label) {
            Some(i) => {
                let mut ws: Vec<LiveWindow> = Vec::new();
                assert(window_views(ws@) =~= Seq::<LiveWindowView>::empty());
                core::mem::swap(&mut self.windows, &mut ws);
                proof {
                    let before = window_views(ws@);
                    lemma_remove_keeps_distinct(before, i as int);
                    assert(window_views(ws@.remove(i as int)) =~= before.remove(i as int));
                }
                ws.remove(i);
                self.windows = ws;
                true
            },
            None => false,
        }
    }
}

/// Taking a window out keeps labels distinct, and its label is live no more.
pub proof fn lemma_remove_keeps_distinct(s: Seq<LiveWindowView>, i: int)
    requires
        distinct_labels(s),
        0 <= i < s.len(),
    ensures
        distinct_labels(s.remove(i)),
        !has_window(s.remove(i), s[i].label),
        forall|l: Seq<char>| l != s[i].label ==> (has_window(s.remove(i), l) <==> has_window(s, l)),
{
    let r = s.remove(i);
    assert forall|a: int, b: int| 0 <= a < b < r.len() implies #[trigger] r[a].label
        != #[trigger] r[b].label by {
        let a0 = if a < i { a } else { a + 1 };
        let b0 = if b < i { b } else { b + 1 };
        assert(r[a] == s[a0] && r[b] == s[b0]);
    }
    if has_window(r, s[i].label) {
        let a = window_place(r, s[i].label);
        let a0 = if a < i { a } else { a + 1 };
        assert(r[a] == s[a0]);
        if a0 < i {
            assert(s[a0].label != s[i].label);
        } else {
            assert(s[i].label != s[a0].label);
        }
    }
    assert forall|l: Seq<char>| l != s[i].label implies (has_window(r, l) <==> has_window(s, l)) by {
        if has_window(r, l) {
            let a = window_place(r, l);
            let a0 = if a < i { a } else { a + 1 };
            assert(r[a] == s[a0]);
            assert(s[a0].label == l);
        }
        if has_window(s, l) {
            let a0 = window_place(s, l);
            let a = if a0 < i { a0 } else { a0 - 1 };
            assert(r[a] == s[a0]);
            assert(r[a].label == l);
        }
    }
}

/// Sees to it that a note has its window. Where a window with the note's
/// label is live, nothing is to be done. Else the caller is to build the
/// window that is returned, and the set holds it from now on.
pub fn create_note_window(windows: &mut WindowSet, note: &Note) -> (r: Option<WindowSpec>)
    ensures
        distinct_labels(final(windows)@),
        final(windows)@ == ensured(old(windows)@, note@),
        has_window(final(windows)@, label_of(note@.id)),
        match r {
            Some(spec) => !has_window(old(windows)@, label_of(note@.id)) && spec@ == window_spec_for(
                note@,
            ),
            None => has_window(old(windows)@, label_of(note@.id)),
        },
{
    let label = window_label(note.id.as_str());
    let window = LiveWindow {
        label: label.clone(),
        visible: true,
        minimized: false,
        always_on_top: note.always_on_top,
    };
    if !windows.add(window) {
        return None;
    }
    proof {
        let s = windows@;
        assert(s[s.len() - 1].label == label_of(note@.id));
    }
    Some(
        WindowSpec {
            label,
            url: note_url(note.id.as_str()),
            title: WINDOW_TITLE.to_owned(),
            decorations: false,
            transparent: true,
            always_on_top: note.always_on_top,
            x: note.pos_x,
            y: note.pos_y,
            width: note.width,
            height: note.height,
            min_width: MIN_WIDTH,
            min_height: MIN_HEIGHT,
            visible: true,
        },
    )
}

/// The live windows once each of the notes, first to last, has its window.
pub open spec fn restored(s: Seq<LiveWindowView>, notes: Seq<NoteView>) -> Seq<LiveWindowView>
    decreases notes.len(),
{
    if notes.len() == 0 {
        s
    } else {
        ensured(restored(s, notes.drop_last()), notes.last())
    }
}

/// The windows that are to be built so that each of the notes, first to
/// last, has its window: one for each note that has none when its turn comes.
pub open spec fn specs_built(s: Seq<LiveWindowView>, notes: Seq<NoteView>) -> Seq<WindowSpecView>
    decreases notes.len(),
{
    if notes.len() == 0 {
        Seq::empty()
    } else {
        let front = specs_built(s, notes.drop_last());
        if has_window(restored(s, notes.drop_last()), label_of(notes.last().id)) {
            front
        } else {
            front.push(window_spec_for(notes.last()))
        }
    }
}

/// Sees to it that every note that the store marks open has its window, in
/// the order of the notes' creation. The caller is to build the windows that
/// are returned; that one of them cannot be built is no reason to leave out
/// the others.
pub fn restore_open_notes(windows: &mut WindowSet, db: &Database) -> (r: Vec<WindowSpec>)
    ensures
        distinct_labels(final(windows)@),
        final(windows)@ == restored(old(windows)@, open_notes(db@.notes)),
        spec_views(r@) == specs_built(old(windows)@, open_notes(db@.notes)),
{
    proof {
        use_type_invariant(&*windows);
    }
    let notes = db.get_open_notes();
    let ghost all = note_views(notes@);
    let ghost start = windows@;
    let mut specs: Vec<WindowSpec> = Vec::new();
    let mut i: usize = 0;
    proof {
        assert(all.take(0) =~= Seq::<NoteView>::empty());
        assert(spec_views(specs@) =~= Seq::<WindowSpecView>::empty());
    }
    while i < notes.len()
        invariant
            i <= notes.len(),
            all == note_views(notes@),
            distinct_labels(windows@),
            windows@ == restored(start, all.take(i as int)),
            spec_views(specs@) == specs_built(start, all.take(i as int)),
        decreases notes.len() - i,
    {
        proof {
            assert(all.take(i as int + 1).drop_last() =~= all.take(i as int));
            assert(all.take(i as int + 1).last() == notes@[i as int]@);
        }
        let ghost before = specs@;
        match create_note_window(windows, &notes[i]) {
            Some(spec) => {
                specs.push(spec);
                proof {
                    assert(spec_views(before).len() == before.len());
                    assert(spec_views(specs@) =~= spec_views(before).push(spec@));
                }
            },
            None => {},
        }
        i += 1;
    }
    proof {
        assert(all.take(i as int) =~= all);
    }
    specs
}

/// After the windows are restored, each of the notes has its window, and
/// every window that was live before is live still.
pub proof fn lemma_restored_covers(s: Seq<LiveWindowView>, notes: Seq<NoteView>)
    ensures
        forall|i: int|
            0 <= i < notes.len() ==> has_window(restored(s, notes), label_of(#[trigger] notes[i].id)),
        forall|l: Seq<char>| has_window(s, l) ==> has_window(restored(s, notes), l),
    decreases notes.len(),
{
    if notes.len() > 0 {
        let front = notes.drop_last();
        let mid = restored(s, front);
        let out = restored(s, notes);
        lemma_restored_covers(s, front);
        assert forall|l: Seq<char>| has_window(mid, l) implies has_window(out, l) by {
            let j = window_place(mid, l);
            assert(out[j].label == l);
        }
        assert(has_window(out, label_of(notes.last().id))) by {
            if !has_window(mid, label_of(notes.last().id)) {
                assert(out[out.len() - 1].label == label_of(notes.last().id));
            }
        }
        assert forall|i: int| 0 <= i < notes.len() implies has_window(
            out,
            label_of(#[trigger] notes[i].id),
        ) by {
            if i < notes.len() - 1 {
                assert(front[i] == notes[i]);
            }
        }
    }
}

/// After the windows are restored, every live window was live before or is
/// the window of one of the notes.
pub proof fn lemma_restored_only(s: Seq<LiveWindowView>, notes: Seq<NoteView>, l: Seq<char>)
    requires
        has_window(restored(s, notes), l),
    ensures
        has_window(s, l) || exists|i: int| 0 <= i < notes.len() && l == label_of(#[trigger] notes[i].id),
    decreases notes.len(),
{
    if notes.len() > 0 {
        let front = notes.drop_last();
        let mid = restored(s, front);
        let out = restored(s, notes);
        let j = window_place(out, l);
        if j < mid.len() {
            assert(mid[j].label == l);
            lemma_restored_only(s, front, l);
            if !has_window(s, l) {
                let i = choose|i: int| 0 <= i < front.len() && l == label_of(#[trigger] front[i].id);
                assert(front[i] == notes[i]);
            }
        } else {
            assert(l == label_of(notes[notes.len() - 1].id));
        }
    }
}

/// Two notes with the same window label have the same id.
pub proof fn lemma_label_of_injective(a: Seq<char>, b: Seq<char>)
    requires
        label_of(a) == label_of(b),
    ensures
        a == b,
{
    let p = NOTE_PREFIX@;
    assert(label_of(a).subrange(p.len() as int, label_of(a).len() as int) =~= a);
    assert(label_of(b).subrange(p.len() as int, label_of(b).len() as int) =~= b);
}

/// What a sweep over the note windows does to each of them.
#[derive(Debug, Clone, Copy, PartialEq, Eq, Structural)]
pub enum Sweep {
    /// Hide the window.
    Hide,
    /// Show the window and bring it back from the task bar.
    Show,
    /// Send the window to the task bar.
    Minimize,
}

/// A window after a sweep: a note window is changed as the sweep says, any
/// other window is left alone.
pub open spec fn swept(w: LiveWindowView, how: Sweep) -> LiveWindowView {
    if is_note_label(w.label) {
        match how {
            Sweep::Hide => LiveWindowView { visible: false, ..w },
            Sweep::Show => LiveWindowView { visible: true, minimized: false, ..w },
            Sweep::Minimize => LiveWindowView { minimized: true, ..w },
        }
    } else {
        w
    }
}

/// The live windows after a sweep.
pub open spec fn all_swept(s: Seq<LiveWindowView>, how: Sweep) -> Seq<LiveWindowView> {
    Seq::new(s.len(), |i: int| swept(s[i], how))
}

/// The labels of the note windows among the live windows, in order.
pub open spec fn note_labels(s: Seq<LiveWindowView>) -> Seq<Seq<char>>
    decreases s.len(),
{
    if s.len() == 0 {
        Seq::empty()
    } else if is_note_label(s.last().label) {
        note_labels(s.drop_last()).push(s.last().label)
    } else {
        note_labels(s.drop_last())
    }
}

/// A sweep keeps every label, so labels stay distinct.
pub proof fn lemma_swept_keeps_labels(s: Seq<LiveWindowView>, how: Sweep)
    requires
        distinct_labels(s),
    ensures
        distinct_labels(all_swept(s, how)),
        forall|l: Seq<char>| has_window(all_swept(s, how), l) <==> has_window(s, l),
{
    let after = all_swept(s, how);
    assert forall|a: int, b: int| 0 <= a < b < after.len() implies #[trigger] after[a].label
        != #[trigger] after[b].label by {
        assert(after[a].label == s[a].label && after[b].label == s[b].label);
    }
    assert forall|l: Seq<char>| has_window(after, l) <==> has_window(s, l) by {
        if has_window(after, l) {
            let i = window_place(after, l);
            assert(s[i].label == l);
        }
        if has_window(s, l) {
            let i = window_place(s, l);
            assert(after[i].label == l);
        }
    }
}

/// One window after a sweep.
fn sweep_window(w: &LiveWindow, how: Sweep) -> (r: LiveWindow)
    ensures
        r@ == swept(w@, how),
{
    let mut r = w.clone();
    if has_note_prefix(w.label.as_str()) {
        match how {
            Sweep::Hide => {
                r.visible = false;
            },
            Sweep::Show => {
                r.visible = true;
                r.minimized = false;
            },
            Sweep::Minimize => {
                r.minimized = true;
            },
        }
    }
    r
}

/// Appends a window's label to a list if it is a note window.
fn push_note_label(labels: &mut Vec<String>, w: &LiveWindow)
    ensures
        texts(final(labels)@) == if is_note_label(w@.label) {
            texts(old(labels)@).push(w@.label)
        } else {
            texts(old(labels)@)
        },
{
    if has_note_prefix(w.label.as_str()) {
        labels.push(w.label.clone());
        assert(texts(labels@) =~= texts(old(labels)@).push(w@.label));
    }
}

/// Sweeps over the live note windows. The caller is to do to each window
/// whose label is returned what the sweep says; that one of them fails is no
/// reason to leave out the others.
pub fn sweep_note_windows(windows: &mut WindowSet, how: Sweep) -> (labels: Vec<String>)
    ensures
        distinct_labels(final(windows)@),
        final(windows)@ == all_swept(old(windows)@, how),
        texts(labels@) == note_labels(old(windows)@),
{
    proof {
        use_type_invariant(&*windows);
    }
    let ghost start = windows@;
    let mut ws: Vec<LiveWindow> = Vec::new();
    assert(window_views(ws@) =~= Seq::<LiveWindowView>::empty());
    core::mem::swap(&mut windows.windows, &mut ws);
    let mut labels: Vec<String> = Vec::new();
    let mut i: usize = 0;
    proof {
        assert(start.take(0) =~= Seq::<LiveWindowView>::empty());
        assert(texts(labels@) =~= Seq::<Seq<char>>::empty());
    }
    while i < ws.len()
        invariant
            i <= ws.len(),
            ws@.len() == start.len(),
            forall|j: int| 0 <= j < i ==> (#[trigger] ws@[j])@ == swept(start[j], how),
            forall|j: int| i <= j < ws@.len() ==> (#[trigger] ws@[j])@ == start[j],
            texts(labels@) == note_labels(start.take(i as int)),
        decreases ws.len() - i,
    {
        proof {
            assert(start.take(i as int + 1).drop_last() =~= start.take(i as int));
            assert(start.take(i as int + 1).last() == start[i as int]);
            assert(ws@[i as int]@ == start[i as int]);
        }
        push_note_label(&mut labels, &ws[i]);
        let w = sweep_window(&ws[i], how);
        ws[i] = w;
        i += 1;
    }
    proof {
        assert(start.take(i as int) =~= start);
        assert(window_views(ws@) =~= all_swept(start, how));
        lemma_swept_keeps_labels(start, how);
    }
    windows.windows = ws;
    labels
}

/// Hides every live note window. The caller is to hide each window whose
/// label is returned. No window is closed, and no record is touched.
pub fn close_all_note_windows(windows: &mut WindowSet) -> (labels: Vec<String>)
    ensures
        distinct_labels(final(windows)@),
        final(windows)@ == all_swept(old(windows)@, Sweep::Hide),
        texts(labels@) == note_labels(old(windows)@),
{
    sweep_note_windows(windows, Sweep::Hide)
}

/// Shows every live note window and brings it back from the task bar. The
/// caller is to do so with each window whose label is returned.
pub fn show_all_note_windows(windows: &mut WindowSet) -> (labels: Vec<String>)
    ensures
        distinct_labels(final(windows)@),
        final(windows)@ == all_swept(old(windows)@, Sweep::Show),
        texts(labels@) == note_labels(old(windows)@),
{
    sweep_note_windows(windows, Sweep::Show)
}

} // verus!
