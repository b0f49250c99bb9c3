//! Note records, application settings and the field writes of an update.

use crate::opacity::{clamp_default, clamp_opacity, clamp_spec, default_or, in_range};
use vstd::prelude::*;

verus! {

/// The mode of a note of plain text.
pub const MODE_TEXT: &'static str = "text";

/// The mode of a note that is a list of things to do.
pub const MODE_TODO: &'static str = "todo";

/// One sticky note as the store keeps it.
///
/// `opacity` holds the bit pattern of a binary64 number (see
/// [`crate::opacity`]). `mode` is free text here; the command boundary
/// admits only "text" and "todo".
#[derive(Debug)]
pub struct Note {
    pub id: String,
    pub title: String,
    pub content: String,
    pub mode: String,
    pub pos_x: i32,
    pub pos_y: i32,
    pub width: i32,
    pub height: i32,
    pub opacity: u64,
    pub is_open: bool,
    pub is_minimized: bool,
    pub always_on_top: bool,
    pub created_at: String,
    pub updated_at: String,
}

/// The mathematical value of a [`Note`].
pub struct NoteView {
    pub id: Seq<char>,
    pub title: Seq<char>,
    pub content: Seq<char>,
    pub mode: Seq<char>,
    pub pos_x: int,
    pub pos_y: int,
    pub width: int,
    pub height: int,
    pub opacity: u64,
    pub is_open: bool,
    pub is_minimized: bool,
    pub always_on_top: bool,
    pub created_at: Seq<char>,
    pub updated_at: Seq<char>,
}

impl View for Note {
    type V = NoteView;

    open spec fn view(&self) -> NoteView {
        NoteView {
            id: self.id@,
            title: self.title@,
            content: self.content@,
            mode: self.mode@,
            pos_x: self.pos_x as int,
            pos_y: self.pos_y as int,
            width: self.width as int,
            height: self.height as int,
            opacity: self.opacity,
            is_open: self.is_open,
            is_minimized: self.is_minimized,
            always_on_top: self.always_on_top,
            created_at: self.created_at@,
            updated_at: self.updated_at@,
        }
    }
}

impl Clone for Note {
    fn clone(&self) -> (r: Self)
        ensures
            r@ == self@,
    {
        Note {
            id: self.id.clone(),
            title: self.title.clone(),
            content: self.content.clone(),
            mode: self.mode.clone(),
            pos_x: self.pos_x,
            pos_y: self.pos_y,
            width: self.width,
            height: self.height,
            opacity: self.opacity,
            is_open: self.is_open,
            is_minimized: self.is_minimized,
            always_on_top: self.always_on_top,
            created_at: self.created_at.clone(),
            updated_at: self.updated_at.clone(),
        }
    }
}

/// One note as a table row holds it: the three flags are integers, and a
/// flag is set where the integer is 1.
#[derive(Debug)]
pub struct NoteRow {
    pub id: String,
    pub title: String,
    pub content: String,
    pub mode: String,
    pub pos_x: i32,
    pub pos_y: i32,
    pub width: i32,
    pub height: i32,
    pub opacity: u64,
    pub is_open: i32,
    pub is_minimized: i32,
    pub always_on_top: i32,
    pub created_at: String,
    pub updated_at: String,
}

/// The mathematical value of a [`NoteRow`].
pub struct NoteRowView {
    pub id: Seq<char>,
    pub title: Seq<char>,
    pub content: Seq<char>,
    pub mode: Seq<char>,
    pub pos_x: int,
    pub pos_y: int,
    pub width: int,
    pub height: int,
    pub opacity: u64,
    pub is_open: int,
    pub is_minimized: int,
    pub always_on_top: int,
    pub created_at: Seq<char>,
    pub updated_at: Seq<char>,
}

impl View for NoteRow {
    type V = NoteRowView;

    open spec fn view(&self) -> NoteRowView {
        NoteRowView {
            id: self.id@,
            title: self.title@,
            content: self.content@,
            mode: self.mode@,
            pos_x: self.pos_x as int,
            pos_y: self.pos_y as int,
            width: self.width as int,
            height: self.height as int,
            opacity: self.opacity,
            is_open: self.is_open as int,
            is_minimized: self.is_minimized as int,
            always_on_top: self.always_on_top as int,
            created_at: self.created_at@,
            updated_at: self.updated_at@,
        }
    }
}

/// The integer that a row holds for a flag.
pub open spec fn flag_column(b: bool) -> int {
    if b {
        1
    } else {
        0
    }
}

/// The note that a row holds: a flag is set exactly where its column holds
/// 1, every other field is taken as it is.
pub open spec fn note_of_row(row: NoteRowView) -> NoteView {
    NoteView {
        id: row.id,
        title: row.title,
        content: row.content,
        mode: row.mode,
        pos_x: row.pos_x,
        pos_y: row.pos_y,
        width: row.width,
        height: row.height,
        opacity: row.opacity,
        is_open: row.is_open == 1,
        is_minimized: row.is_minimized == 1,
        always_on_top: row.always_on_top == 1,
        created_at: row.created_at,
        updated_at: row.updated_at,
    }
}

/// The row that holds a note: a flag that is set becomes 1, one that is not
/// becomes 0.
pub open spec fn row_of_note(n: NoteView) -> NoteRowView {
    NoteRowView {
        id: n.id,
        title: n.title,
        content: n.content,
        mode: n.mode,
        pos_x: n.pos_x,
        pos_y: n.pos_y,
        width: n.width,
        height: n.height,
        opacity: n.opacity,
        is_open: flag_column(n.is_open),
        is_minimized: flag_column(n.is_minimized),
        always_on_top: flag_column(n.always_on_top),
        created_at: n.created_at,
        updated_at: n.updated_at,
    }
}

/// A note that is written as a row and read again is the same note.
pub proof fn lemma_row_round_trip(n: NoteView)
    ensures
        note_of_row(row_of_note(n)) == n,
{
}

impl Note {
    /// Reads a note from a row.
    pub fn from_row(row: NoteRow) -> (n: Note)
        ensures
            n@ == note_of_row(row@),
    {
        Note {
            id: row.id,
            title: row.title,
            content: row.content,
            mode: row.mode,
            pos_x: row.pos_x,
            pos_y: row.pos_y,
            width: row.width,
            height: row.height,
            opacity: row.opacity,
            is_open: row.is_open == 1,
            is_minimized: row.is_minimized == 1,
            always_on_top: row.always_on_top == 1,
            created_at: row.created_at,
            updated_at: row.updated_at,
        }
    }

    /// Writes the note as a row.
    pub fn to_row(&self) -> (row: NoteRow)
        ensures
            row@ == row_of_note(self@),
    {
        NoteRow {
            id: self.id.clone(),
            title: self.title.clone(),
            content: self.content.clone(),
            mode: self.mode.clone(),
            pos_x: self.pos_x,
            pos_y: self.pos_y,
            width: self.width,
            height: self.height,
            opacity: self.opacity,
            is_open: if self.is_open { 1 } else { 0 },
            is_minimized: if self.is_minimized { 1 } else { 0 },
            always_on_top: if self.always_on_top { 1 } else { 0 },
            created_at: self.created_at.clone(),
            updated_at: self.updated_at.clone(),
        }
    }
}

/// The values of a list of notes, in order.
pub open spec fn note_views(s: Seq<Note>) -> Seq<NoteView> {
    Seq::new(s.len(), |i: int| s[i]@)
}

/// Copies a list of notes.
pub fn clone_notes(v: &Vec<Note>) -> (r: Vec<Note>)
    ensures
        note_views(r@) == note_views(v@),
{
    let mut out: Vec<Note> = Vec::new();
    let mut i: usize = 0;
    while i < v.len()
        invariant
            i <= v.len(),
            out@.len() == i,
            forall|j: int| 0 <= j < i ==> (#[trigger] out@[j])@ == v@[j]@,
        decreases v.len() - i,
    {
        out.push(v[i].clone());
        i += 1;
    }
    assert(note_views(out@) =~= note_views(v@));
    out
}

/// The value of an optional note.
pub open spec fn opt_note_view(n: Option<Note>) -> Option<NoteView> {
    match n {
        Some(n) => Some(n@),
        None => None,
    }
}

/// The application-wide settings.
///
/// `default_opacity` is a bit pattern like [`Note::opacity`]; it is only the
/// opacity that a new note starts with.
#[derive(Debug)]
pub struct Settings {
    pub theme: String,
    pub default_opacity: u64,
}

/// The mathematical value of [`Settings`].
pub struct SettingsView {
    pub theme: Seq<char>,
    pub default_opacity: u64,
}

impl View for Settings {
    type V = SettingsView;

    open spec fn view(&self) -> SettingsView {
        SettingsView { theme: self.theme@, default_opacity: self.default_opacity }
    }
}

impl Clone for Settings {
    fn clone(&self) -> (r: Self)
        ensures
            r@ == self@,
    {
        Settings { theme: self.theme.clone(), default_opacity: self.default_opacity }
    }
}

/// One field write of an update: what a single statement against a note's
/// record sets. Every field is written on its own.
#[derive(Debug)]
pub enum FieldWrite {
    Title(String),
    Content(String),
    Mode(String),
    PosX(i32),
    PosY(i32),
    Width(i32),
    Height(i32),
    Opacity(u64),
    AlwaysOnTop(bool),
}

/// The mathematical value of a [`FieldWrite`].
pub enum FieldWriteView {
    Title(Seq<char>),
    Content(Seq<char>),
    Mode(Seq<char>),
    PosX(int),
    PosY(int),
    Width(int),
    Height(int),
    Opacity(u64),
    AlwaysOnTop(bool),
}

impl View for FieldWrite {
    type V = FieldWriteView;

    open spec fn view(&self) -> FieldWriteView {
        match *self {
            FieldWrite::Title(t) => FieldWriteView::Title(t@),
            FieldWrite::Content(t) => FieldWriteView::Content(t@),
            FieldWrite::Mode(t) => FieldWriteView::Mode(t@),
            FieldWrite::PosX(x) => FieldWriteView::PosX(x as int),
            FieldWrite::PosY(y) => FieldWriteView::PosY(y as int),
            FieldWrite::Width(w) => FieldWriteView::Width(w as int),
            FieldWrite::Height(h) => FieldWriteView::Height(h as int),
            FieldWrite::Opacity(o) => FieldWriteView::Opacity(o),
            FieldWrite::AlwaysOnTop(b) => FieldWriteView::AlwaysOnTop(b),
        }
    }
}

/// The values of a list of writes, in order.
pub open spec fn write_views(ws: Seq<FieldWrite>) -> Seq<FieldWriteView> {
    Seq::new(ws.len(), |i: int| ws[i]@)
}

/// The text of an optional string slice.
pub open spec fn opt_text(o: Option<&str>) -> Option<Seq<char>> {
    match o {
        Some(s) => Some(s@),
        None => None,
    }
}

/// The note after one write at time `now`: the written field takes the new
/// value, an opacity clamped to the range of opacities, and `updated_at`
/// becomes `now`; everything else stays.
pub open spec fn write_applied(n: NoteView, w: FieldWriteView, now: Seq<char>) -> NoteView {
    match w {
        FieldWriteView::Title(t) => NoteView { title: t, updated_at: now, ..n },
        FieldWriteView::Content(t) => NoteView { content: t, updated_at: now, ..n },
        FieldWriteView::Mode(t) => NoteView { mode: t, updated_at: now, ..n },
        FieldWriteView::PosX(x) => NoteView { pos_x: x, updated_at: now, ..n },
        FieldWriteView::PosY(y) => NoteView { pos_y: y, updated_at: now, ..n },
        FieldWriteView::Width(w) => NoteView { width: w, updated_at: now, ..n },
        FieldWriteView::Height(h) => NoteView { height: h, updated_at: now, ..n },
        FieldWriteView::Opacity(o) => NoteView { opacity: clamp_spec(o), updated_at: now, ..n },
        FieldWriteView::AlwaysOnTop(b) => NoteView { always_on_top: b, updated_at: now, ..n },
    }
}

/// The note after a list of writes, applied first to last, all at time `now`.
pub open spec fn writes_applied(n: NoteView, ws: Seq<FieldWriteView>, now: Seq<char>) -> NoteView
    decreases ws.len(),
{
    if ws.len() == 0 {
        n
    } else {
        writes_applied(write_applied(n, ws[0], now), ws.drop_first(), now)
    }
}

/// A list of one write, or none where nothing is given.
pub open spec fn one_write(w: Option<FieldWriteView>) -> Seq<FieldWriteView> {
    match w {
        Some(w) => seq![w],
        None => Seq::empty(),
    }
}

/// The writes that an update with the given optional fields makes, in the
/// order in which they are carried out: title, content, mode, the two
/// coordinates, width, height, opacity, always-on-top. Each field that is
/// given is written, whatever else is given.
pub open spec fn planned_writes(
    title: Option<Seq<char>>,
    content: Option<Seq<char>>,
    mode: Option<Seq<char>>,
    pos_x: Option<i32>,
    pos_y: Option<i32>,
    width: Option<i32>,
    height: Option<i32>,
    opacity: Option<u64>,
    always_on_top: Option<bool>,
) -> Seq<FieldWriteView> {
    one_write(
        match title {
            Some(t) => Some(FieldWriteView::Title(t)),
            None => None,
        },
    ) + one_write(
        match content {
            Some(t) => Some(FieldWriteView::Content(t)),
            None => None,
        },
    ) + one_write(
        match mode {
            Some(t) => Some(FieldWriteView::Mode(t)),
            None => None,
        },
    ) + one_write(
        match pos_x {
            Some(x) => Some(FieldWriteView::PosX(x as int)),
            None => None,
        },
    ) + one_write(
        match pos_y {
            Some(y) => Some(FieldWriteView::PosY(y as int)),
            None => None,
        },
    ) + one_write(
        match width {
            Some(w) => Some(FieldWriteView::Width(w as int)),
            None => None,
        },
    ) + one_write(
        match height {
            Some(h) => Some(FieldWriteView::Height(h as int)),
            None => None,
        },
    ) + one_write(
        match opacity {
            Some(o) => Some(FieldWriteView::Opacity(o)),
            None => None,
        },
    ) + one_write(
        match always_on_top {
            Some(b) => Some(FieldWriteView::AlwaysOnTop(b)),
            None => None,
        },
    )
}

/// Applying two lists of writes one after the other is applying their
/// concatenation.
pub proof fn lemma_writes_applied_concat(
    n: NoteView,
    a: Seq<FieldWriteView>,
    b: Seq<FieldWriteView>,
    now: Seq<char>,
)
    ensures
        writes_applied(n, a + b, now) == writes_applied(writes_applied(n, a, now), b, now),
    decreases a.len(),
{
    if a.len() == 0 {
        assert(a + b =~= b);
    } else {
        assert((a + b)[0] == a[0]);
        assert((a + b).drop_first() =~= a.drop_first() + b);
        lemma_writes_applied_concat(write_applied(n, a[0], now), a.drop_first(), b, now);
    }
}

/// Applying one write, or none where nothing is given.
pub proof fn lemma_one_write_applied(n: NoteView, w: Option<FieldWriteView>, now: Seq<char>)
    ensures
        writes_applied(n, one_write(w), now) == match w {
            Some(w) => write_applied(n, w, now),
            None => n,
        },
{
    reveal_with_fuel(writes_applied, 2);
    match w {
        Some(w) => {
            assert(one_write(Some(w)).drop_first() =~= Seq::<FieldWriteView>::empty());
        },
        None => {},
    }
}

/// The update gives a field.
pub open spec fn writes_something(
    title: Option<Seq<char>>,
    content: Option<Seq<char>>,
    mode: Option<Seq<char>>,
    pos_x: Option<i32>,
    pos_y: Option<i32>,
    width: Option<i32>,
    height: Option<i32>,
    opacity: Option<u64>,
    always_on_top: Option<bool>,
) -> bool {
    title is Some || content is Some || mode is Some || pos_x is Some || pos_y is Some || width
        is Some || height is Some || opacity is Some || always_on_top is Some
}

/// The value of a field after an update: the given one, or the one it had
/// where none is given.
pub open spec fn given_or(o: Option<i32>, was: int) -> int {
    match o {
        Some(v) => v as int,
        None => was,
    }
}

/// The note after an update at time `now`, field by field: each field that
/// the update gives takes the new value, whatever else is given, an opacity
/// clamped to the range of opacities, and every other field stays; the time
/// of update becomes `now` if any field is given.
pub open spec fn updated_note(
    n: NoteView,
    title: Option<Seq<char>>,
    content: Option<Seq<char>>,
    mode: Option<Seq<char>>,
    pos_x: Option<i32>,
    pos_y: Option<i32>,
    width: Option<i32>,
    height: Option<i32>,
    opacity: Option<u64>,
    always_on_top: Option<bool>,
    now: Seq<char>,
) -> NoteView {
    NoteView {
        id: n.id,
        title: match title {
            Some(t) => t,
            None => n.title,
        },
        content: match content {
            Some(t) => t,
            None => n.content,
        },
        mode: match mode {
            Some(t) => t,
            None => n.mode,
        },
        pos_x: given_or(pos_x, n.pos_x),
        pos_y: given_or(pos_y, n.pos_y),
        width: given_or(width, n.width),
        height: given_or(height, n.height),
        opacity: match opacity {
            Some(o) => clamp_spec(o),
            None => n.opacity,
        },
        is_open: n.is_open,
        is_minimized: n.is_minimized,
        always_on_top: match always_on_top {
            Some(b) => b,
            None => n.always_on_top,
        },
        created_at: n.created_at,
        updated_at: if writes_something(
            title,
            content,
            mode,
            pos_x,
            pos_y,
            width,
            height,
            opacity,
            always_on_top,
        ) {
            now
        } else {
            n.updated_at
        },
    }
}

/// Carrying out the writes of an update gives the note that the update
/// describes field by field.
pub proof fn lemma_planned_writes_applied(
    n: NoteView,
    title: Option<Seq<char>>,
    content: Option<Seq<char>>,
    mode: Option<Seq<char>>,
    pos_x: Option<i32>,
    pos_y: Option<i32>,
    width: Option<i32>,
    height: Option<i32>,
    opacity: Option<u64>,
    always_on_top: Option<bool>,
    now: Seq<char>,
)
    ensures
        writes_applied(
            n,
            planned_writes(
                title,
                content,
                mode,
                pos_x,
                pos_y,
                width,
                height,
                opacity,
                always_on_top,
            ),
            now,
        ) == updated_note(
            n,
            title,
            content,
            mode,
            pos_x,
            pos_y,
            width,
            height,
            opacity,
            always_on_top,
            now,
        ),
{
    let write_title = match title {
        Some(t) => Some(FieldWriteView::Title(t)),
        None => None,
    };
    let write_content = match content {
        Some(t) => Some(FieldWriteView::Content(t)),
        None => None,
    };
    let write_mode = match mode {
        Some(t) => Some(FieldWriteView::Mode(t)),
        None => None,
    };
    let write_pos_x = match pos_x {
        Some(x) => Some(FieldWriteView::PosX(x as int)),
        None => None,
    };
    let write_pos_y = match pos_y {
        Some(y) => Some(FieldWriteView::PosY(y as int)),
        None => None,
    };
    let write_width = match width {
        Some(w) => Some(FieldWriteView::Width(w as int)),
        None => None,
    };
    let write_height = match height {
        Some(h) => Some(FieldWriteView::Height(h as int)),
        None => None,
    };
    let write_opacity = match opacity {
        Some(o) => Some(FieldWriteView::Opacity(o)),
        None => None,
    };
    let write_on_top = match always_on_top {
        Some(b) => Some(FieldWriteView::AlwaysOnTop(b)),
        None => None,
    };
    let upto_title = one_write(write_title);
    let upto_content = upto_title + one_write(write_content);
    let upto_mode = upto_content + one_write(write_mode);
    let upto_pos_x = upto_mode + one_write(write_pos_x);
    let upto_pos_y = upto_pos_x + one_write(write_pos_y);
    let upto_width = upto_pos_y + one_write(write_width);
    let upto_height = upto_width + one_write(write_height);
    let upto_opacity = upto_height + one_write(write_opacity);
    let upto_on_top = upto_opacity + one_write(write_on_top);
    let after_title = writes_applied(n, upto_title, now);
    lemma_one_write_applied(n, write_title, now);
    let after_content = writes_applied(n, upto_content, now);
    lemma_writes_applied_concat(n, upto_title, one_write(write_content), now);
    lemma_one_write_applied(after_title, write_content, now);
    let after_mode = writes_applied(n, upto_mode, now);
    lemma_writes_applied_concat(n, upto_content, one_write(write_mode), now);
    lemma_one_write_applied(after_content, write_mode, now);
    let after_pos_x = writes_applied(n, upto_pos_x, now);
    lemma_writes_applied_concat(n, upto_mode, one_write(write_pos_x), now);
    lemma_one_write_applied(after_mode, write_pos_x, now);
    let after_pos_y = writes_applied(n, upto_pos_y, now);
    lemma_writes_applied_concat(n, upto_pos_x, one_write(write_pos_y), now);
    lemma_one_write_applied(after_pos_x, write_pos_y, now);
    let after_width = writes_applied(n, upto_width, now);
    lemma_writes_applied_concat(n, upto_pos_y, one_write(write_width), now);
    lemma_one_write_applied(after_pos_y, write_width, now);
    let after_height = writes_applied(n, upto_height, now);
    lemma_writes_applied_concat(n, upto_width, one_write(write_height), now);
    lemma_one_write_applied(after_width, write_height, now);
    let after_opacity = writes_applied(n, upto_opacity, now);
    lemma_writes_applied_concat(n, upto_height, one_write(write_opacity), now);
    lemma_one_write_applied(after_height, write_opacity, now);
    lemma_writes_applied_concat(n, upto_opacity, one_write(write_on_top), now);
    lemma_one_write_applied(after_opacity, write_on_top, now);
    assert(upto_on_top == planned_writes(
        title,
        content,
        mode,
        pos_x,
        pos_y,
        width,
        height,
        opacity,
        always_on_top,
    ));
}

/// The value of an optional write.
pub open spec fn opt_write_view(w: Option<FieldWrite>) -> Option<FieldWriteView> {
    match w {
        Some(w) => Some(w@),
        None => None,
    }
}

/// Appends a write to a list where there is one.
fn push_write(ws: &mut Vec<FieldWrite>, w: Option<FieldWrite>)
    ensures
        write_views(final(ws)@) == write_views(old(ws)@) + one_write(opt_write_view(w)),
{
    if let Some(w) = w {
        ws.push(w);
    }
    assert(write_views(ws@) =~= write_views(old(ws)@) + one_write(opt_write_view(w)));
}

/// Lists the field writes of an update, in the order in which they are
/// carried out.
pub fn field_writes(
    title: Option<&str>,
    content: Option<&str>,
    mode: Option<&str>,
    pos_x: Option<i32>,
    pos_y: Option<i32>,
    width: Option<i32>,
    height: Option<i32>,
    opacity: Option<u64>,
    always_on_top: Option<bool>,
) -> (ws: Vec<FieldWrite>)
    ensures
        write_views(ws@) == planned_writes(
            opt_text(title),
            opt_text(content),
            opt_text(mode),
            pos_x,
            pos_y,
            width,
            height,
            opacity,
            always_on_top,
        ),
{
    let mut ws: Vec<FieldWrite> = Vec::new();
    assert(write_views(ws@) =~= Seq::empty());
    let write_title = match title {
        Some(t) => Some(FieldWrite::Title(t.to_owned())),
        None => None,
    };
    push_write(&mut ws, write_title);
    let write_content = match content {
        Some(t) => Some(FieldWrite::Content(t.to_owned())),
        None => None,
    };
    push_write(&mut ws, write_content);
    let write_mode = match mode {
        Some(t) => Some(FieldWrite::Mode(t.to_owned())),
        None => None,
    };
    push_write(&mut ws, write_mode);
    let write_pos_x = match pos_x {
        Some(x) => Some(FieldWrite::PosX(x)),
        None => None,
    };
    push_write(&mut ws, write_pos_x);
    let write_pos_y = match pos_y {
        Some(y) => Some(FieldWrite::PosY(y)),
        None => None,
    };
    push_write(&mut ws, write_pos_y);
    let write_width = match width {
        Some(w) => Some(FieldWrite::Width(w)),
        None => None,
    };
    push_write(&mut ws, write_width);
    let write_height = match height {
        Some(h) => Some(FieldWrite::Height(h)),
        None => None,
    };
    push_write(&mut ws, write_height);
    let write_opacity = match opacity {
        Some(o) => Some(FieldWrite::Opacity(o)),
        None => None,
    };
    push_write(&mut ws, write_opacity);
    let write_on_top = match always_on_top {
        Some(b) => Some(FieldWrite::AlwaysOnTop(b)),
        None => None,
    };
    push_write(&mut ws, write_on_top);
    assert(Seq::<FieldWriteView>::empty() + one_write(opt_write_view(write_title)) =~= one_write(
        opt_write_view(write_title),
    ));
    ws
}

/// A record as the store keeps it: with its opacity clamped to the range of
/// opacities, and every other field as it is.
pub open spec fn stored_note(n: NoteView) -> NoteView {
    NoteView { opacity: clamp_spec(n.opacity), ..n }
}

/// The note that the store makes for a new id at time `now`: no title, no
/// content, mode "text", 300 by 200, open, not minimized, always on top. Its
/// opacity is the given default, or 0.95 where none is given, clamped to the
/// range of opacities.
pub open spec fn fresh_note(
    id: Seq<char>,
    now: Seq<char>,
    pos_x: i32,
    pos_y: i32,
    default_opacity: Option<u64>,
) -> NoteView {
    NoteView {
        id,
        title: Seq::empty(),
        content: Seq::empty(),
        mode: MODE_TEXT@,
        pos_x: pos_x as int,
        pos_y: pos_y as int,
        width: 300,
        height: 200,
        opacity: default_or(default_opacity),
        is_open: true,
        is_minimized: false,
        always_on_top: true,
        created_at: now,
        updated_at: now,
    }
}

/// A list of writes leaves a note's id and creation time alone.
pub proof fn lemma_writes_keep_identity(n: NoteView, ws: Seq<FieldWriteView>, now: Seq<char>)
    ensures
        writes_applied(n, ws, now).id == n.id,
        writes_applied(n, ws, now).created_at == n.created_at,
        writes_applied(n, ws, now).is_open == n.is_open,
        writes_applied(n, ws, now).is_minimized == n.is_minimized,
        in_range(n.opacity) ==> in_range(writes_applied(n, ws, now).opacity),
    decreases ws.len(),
{
    if ws.len() > 0 {
        lemma_writes_keep_identity(write_applied(n, ws[0], now), ws.drop_first(), now);
    }
}

impl Note {
    /// Makes the record of a new note.
    pub fn fresh(
        id: String,
        now: String,
        pos_x: i32,
        pos_y: i32,
        default_opacity: Option<u64>,
    ) -> (n: Note)
        ensures
            n@ == fresh_note(id@, now@, pos_x, pos_y, default_opacity),
    {
        Note {
            id,
            title: String::new(),
            content: String::new(),
            mode: MODE_TEXT.to_owned(),
            pos_x,
            pos_y,
            width: 300,
            height: 200,
            opacity: clamp_default(default_opacity),
            is_open: true,
            is_minimized: false,
            always_on_top: true,
            created_at: now.clone(),
            updated_at: now,
        }
    }

    /// Marks the note open or closed at time `now`.
    pub fn set_open(&mut self, open: bool, now: &str)
        ensures
            final(self)@ == (NoteView { is_open: open, updated_at: now@, ..old(self)@ }),
    {
        self.is_open = open;
        self.updated_at = now.to_owned();
    }
}

impl Note {
    /// Carries out one field write at time `now`.
    pub fn apply(&mut self, w: &FieldWrite, now: &str)
        ensures
            final(self)@ == write_applied(old(self)@, w@, now@),
    {
        match w {
            FieldWrite::Title(t) => {
                self.title = t.clone();
            },
            FieldWrite::Content(t) => {
                self.content = t.clone();
            },
            FieldWrite::Mode(t) => {
                self.mode = t.clone();
            },
            FieldWrite::PosX(x) => {
                self.pos_x = *x;
            },
            FieldWrite::PosY(y) => {
                self.pos_y = *y;
            },
            FieldWrite::Width(w) => {
                self.width = *w;
            },
            FieldWrite::Height(h) => {
                self.height = *h;
            },
            FieldWrite::Opacity(o) => {
                self.opacity = clamp_opacity(*o);
            },
            FieldWrite::AlwaysOnTop(b) => {
                self.always_on_top = *b;
            },
        }
        self.updated_at = now.to_owned();
    }

    /// Carries out a list of field writes, first to last, all at time `now`.
    pub fn apply_all(&mut self, ws: &Vec<FieldWrite>, now: &str)
        ensures
            final(self)@ == writes_applied(old(self)@, write_views(ws@), now@),
    {
        let mut i: usize = 0;
        assert(write_views(ws@).skip(0) =~= write_views(ws@));
        while i < ws.len()
            invariant
                i <= ws.len(),
                writes_applied(old(self)@, write_views(ws@), now@) == writes_applied(
                    self@,
                    write_views(ws@).skip(i as int),
                    now@,
                ),
            decreases ws.len() - i,
        {
            proof {
                let rest = write_views(ws@).skip(i as int);
                assert(rest[0] == ws@[i as int]@);
                assert(rest.drop_first() =~= write_views(ws@).skip(i as int + 1));
            }
            self.apply(&ws[i], now);
            i += 1;
        }
    }
}

} // verus!
