use vstd::prelude::*;

use tui_textarea::Input;

use crate::buffer::{TextBuffer, apply_input, first_line, move_cursor_to_end, new_text_area, text_lines};
use crate::sshconfig::{Config, Key, KEY_COUNT, RecordView, key_at, mock_records, records};

verus! {

/// The key that was pressed, as far as the editor's bindings tell keys apart.
#[derive(Clone, Copy, PartialEq, Eq, Structural, Debug)]
pub enum KeyCode {
    Char(char),
    Esc,
    Enter,
    Up,
    Down,
    Left,
    Right,
    Home,
    End,
    Delete,
    Other,
}

/// Whether a key event is a press, a repeat or a release.
#[derive(Clone, Copy, PartialEq, Eq, Structural, Debug)]
pub enum KeyKind {
    Press,
    Repeat,
    Release,
}

/// A key event: its kind, the code that the bindings look at, and the same key as the
/// text buffer takes it.
pub struct KeyInput {
    pub kind: KeyKind,
    pub code: KeyCode,
    pub text: Input,
}

/// Which panel has the keyboard, and what it works on.
pub enum ModeView {
    Main,
    Select { idx: int },
    Edit { idx: int, key: Key, lines: Seq<Seq<char>> },
}

/// What the editor holds: the exit flag, the records, the cursor over the record list,
/// the cursor over the field list, and the mode.
pub struct AppView {
    pub exit: bool,
    pub records: Seq<RecordView>,
    pub list_selected: Option<int>,
    pub field_selected: Option<int>,
    pub mode: ModeView,
}

impl AppView {
    /// Cursors point into their lists, and the mode's record exists.
    pub open spec fn well_formed(self) -> bool {
        &&& (self.list_selected matches Some(i) ==> 0 <= i < self.records.len())
        &&& (self.field_selected matches Some(i) ==> 0 <= i < KEY_COUNT)
        &&& match self.mode {
            ModeView::Main => true,
            ModeView::Select { idx } => 0 <= idx < self.records.len(),
            ModeView::Edit { idx, key, lines } => 0 <= idx < self.records.len() && lines.len()
                >= 1,
        }
    }
}

/// The cursor after moving down a list of `len` items.
pub open spec fn next_index(sel: Option<int>, len: int) -> Option<int> {
    if len <= 0 {
        None
    } else {
        match sel {
            None => Some(0),
            Some(i) => Some(if i + 1 < len { i + 1 } else { len - 1 }),
        }
    }
}

/// The cursor after moving up a list of `len` items.
pub open spec fn previous_index(sel: Option<int>, len: int) -> Option<int> {
    if len <= 0 {
        None
    } else {
        match sel {
            None => Some(len - 1),
            Some(i) => Some(if i > 0 { i - 1 } else { 0 }),
        }
    }
}

/// The cursor on the first of `len` items.
pub open spec fn first_index(len: int) -> Option<int> {
    if len <= 0 {
        None
    } else {
        Some(0)
    }
}

/// The cursor on the last of `len` items.
pub open spec fn last_index(len: int) -> Option<int> {
    if len <= 0 {
        None
    } else {
        Some(len - 1)
    }
}

/// Cursor `i` kept inside a list that now has `len` items.
pub open spec fn clamp_index(i: int, len: int) -> Option<int> {
    if len <= 0 {
        None
    } else if i < len {
        Some(i)
    } else {
        Some(len - 1)
    }
}

/// The lines an edit buffer for field `k` of `r` starts with.
pub open spec fn seeded_lines(r: RecordView, k: Key) -> Seq<Seq<char>> {
    if r.fields.contains_key(k) {
        seq![r.fields[k]]
    } else {
        seq![Seq::<char>::empty()]
    }
}

/// Record `r` without field `k`.
pub open spec fn without_field(r: RecordView, k: Key) -> RecordView {
    RecordView { host: r.host, fields: r.fields.remove(k) }
}

/// Record `r` with field `k` set to `v`.
pub open spec fn with_field(r: RecordView, k: Key, v: Seq<char>) -> RecordView {
    RecordView { host: r.host, fields: r.fields.insert(k, v) }
}

/// The effect of a key press while browsing the record list.
pub open spec fn main_transition(v: AppView, c: KeyCode) -> AppView {
    let len = v.records.len() as int;
    match c {
        KeyCode::Char('q') | KeyCode::Esc => AppView { exit: true, ..v },
        KeyCode::Char('j') | KeyCode::Down => AppView {
            list_selected: next_index(v.list_selected, len),
            field_selected: None,
            ..v
        },
        KeyCode::Char('k') | KeyCode::Up => AppView {
            list_selected: previous_index(v.list_selected, len),
            field_selected: None,
            ..v
        },
        KeyCode::Char('l') | KeyCode::Right => match v.list_selected {
            Some(i) => AppView { field_selected: Some(0), mode: ModeView::Select { idx: i }, ..v },
            None => v,
        },
        KeyCode::Char('g') | KeyCode::Home => AppView {
            list_selected: first_index(len),
            field_selected: None,
            ..v
        },
        KeyCode::Char('G') | KeyCode::End => AppView {
            list_selected: last_index(len),
            field_selected: None,
            ..v
        },
        KeyCode::Char('d') | KeyCode::Delete => match v.list_selected {
            Some(i) => AppView {
                records: v.records.remove(i),
                list_selected: clamp_index(i, len - 1),
                ..v
            },
            None => v,
        },
        _ => v,
    }
}

/// The effect of a key press while browsing the fields of record `idx`.
pub open spec fn select_transition(v: AppView, idx: int, c: KeyCode) -> AppView {
    match c {
        KeyCode::Char('q') | KeyCode::Esc => AppView { exit: true, ..v },
        KeyCode::Char('j') | KeyCode::Down => AppView {
            field_selected: next_index(v.field_selected, KEY_COUNT as int),
            ..v
        },
        KeyCode::Char('k') | KeyCode::Up => AppView {
            field_selected: previous_index(v.field_selected, KEY_COUNT as int),
            ..v
        },
        KeyCode::Char('h') | KeyCode::Left => AppView { mode: ModeView::Main, ..v },
        KeyCode::Char('l') | KeyCode::Right => match v.field_selected {
            Some(i) => AppView {
                mode: ModeView::Edit {
                    idx,
                    key: key_at(i),
                    lines: seeded_lines(v.records[idx], key_at(i)),
                },
                ..v
            },
            None => v,
        },
        KeyCode::Char('d') | KeyCode::Delete => match v.field_selected {
            Some(i) => AppView {
                records: v.records.update(idx, without_field(v.records[idx], key_at(i))),
                ..v
            },
            None => v,
        },
        _ => v,
    }
}

/// The effect of cancelling or committing the edit of field `k` of record `idx`, whose
/// buffer holds `lines`.
pub open spec fn edit_transition(
    v: AppView,
    idx: int,
    k: Key,
    lines: Seq<Seq<char>>,
    c: KeyCode,
) -> AppView {
    match c {
        KeyCode::Esc => AppView { mode: ModeView::Select { idx }, ..v },
        KeyCode::Enter => AppView {
            records: v.records.update(idx, with_field(v.records[idx], k, lines[0])),
            mode: ModeView::Select { idx },
            ..v
        },
        _ => v,
    }
}

/// `w` is `v` with only the text of the edit buffer changed, to some non-empty text.
pub open spec fn buffer_edited(v: AppView, w: AppView) -> bool {
    &&& w.exit == v.exit
    &&& w.records == v.records
    &&& w.list_selected == v.list_selected
    &&& w.field_selected == v.field_selected
    &&& match (v.mode, w.mode) {
        (ModeView::Edit { idx, key, lines }, ModeView::Edit { idx: j, key: k, lines: l }) => j
            == idx && k == key && l.len() >= 1,
        _ => false,
    }
}

/// Browsing the record list.
pub struct Main;

/// Browsing the fields of one record.
pub struct Select {
    pub idx: usize,
}

/// Editing the value of one field of one record.
pub struct Edit {
    pub config_idx: usize,
    pub key: Key,
    pub textarea: TextBuffer,
}

/// The mode the editor is in.
pub enum AppState {
    Main(Main),
    Select(Select),
    Edit(Edit),
}

/// An optional index as an optional integer.
pub open spec fn opt_int(o: Option<usize>) -> Option<int> {
    match o {
        Some(i) => Some(i as int),
        None => None,
    }
}

/// The mode that an editor state stands for.
pub open spec fn mode_of(s: AppState) -> ModeView {
    match s {
        AppState::Main(_) => ModeView::Main,
        AppState::Select(s) => ModeView::Select { idx: s.idx as int },
        AppState::Edit(e) => ModeView::Edit {
            idx: e.config_idx as int,
            key: e.key,
            lines: text_lines(e.textarea),
        },
    }
}

/// The editing session: the records, the two list cursors and the current mode.
pub struct App {
    should_exit: bool,
    items: Vec<Config>,
    list_selected: Option<usize>,
    field_selected: Option<usize>,
    current_state: Option<AppState>,
}

impl View for App {
    type V = AppView;

    closed spec fn view(&self) -> AppView {
        AppView {
            exit: self.should_exit,
            records: records(self.items@),
            list_selected: opt_int(self.list_selected),
            field_selected: opt_int(self.field_selected),
            mode: match self.current_state {
                Some(s) => mode_of(s),
                None => ModeView::Main,
            },
        }
    }
}

fn next_index_exec(sel: Option<usize>, len: usize) -> (r: Option<usize>)
    ensures
        opt_int(r) == next_index(opt_int(sel), len as int),
{
    if len == 0 {
        None
    } else {
        match sel {
            None => Some(0),
            Some(i) => Some(if i < len - 1 { i + 1 } else { len - 1 }),
        }
    }
}

fn previous_index_exec(sel: Option<usize>, len: usize) -> (r: Option<usize>)
    ensures
        opt_int(r) == previous_index(opt_int(sel), len as int),
{
    if len == 0 {
        None
    } else {
        match sel {
            None => Some(len - 1),
            Some(i) => Some(if i > 0 { i - 1 } else { 0 }),
        }
    }
}

fn clamp_index_exec(i: usize, len: usize) -> (r: Option<usize>)
    ensures
        opt_int(r) == clamp_index(i as int, len as int),
{
    if len == 0 {
        None
    } else if i < len {
        Some(i)
    } else {
        Some(len - 1)
    }
}

impl Main {
    fn handle_key_main(self, app: &mut App, key: KeyInput)
        requires
            old(app).current_state is None,
            old(app)@.well_formed(),
        ensures
            final(app).current_state is Some,
            final(app)@ == main_transition(old(app)@, key.code),
    {
        let new_state = match key.code {
            KeyCode::Char('q') | KeyCode::Esc => self.quit(app),
            KeyCode::Char('j') | KeyCode::Down => self.select_next(app),
            KeyCode::Char('k') | KeyCode::Up => self.select_previous(app),
            KeyCode::Char('l') | KeyCode::Right => self.state_next(app),
            KeyCode::Char('g') | KeyCode::Home => self.select_first(app),
            KeyCode::Char('G') | KeyCode::End => self.select_last(app),
            KeyCode::Char('d') | KeyCode::Delete => self.delete(app),
            _ => AppState::Main(self),
        };
        app.current_state = Some(new_state);
    }

    fn quit(self, app: &mut App) -> (r: AppState)
        requires
            old(app).current_state is None,
        ensures
            r is Main,
            final(app).current_state is None,
            final(app)@ == (AppView { exit: true, ..old(app)@ }),
    {
        app.should_exit = true;
        AppState::Main(self)
    }

    fn select_next(self, app: &mut App) -> (r: AppState)
        requires
            old(app).current_state is None,
        ensures
            r is Main,
            final(app).current_state is None,
            final(app)@ == (AppView {
                list_selected: next_index(old(app)@.list_selected, old(app)@.records.len() as int),
                field_selected: None,
                ..old(app)@
            }),
    {
        app.field_selected = None;
        app.list_selected = next_index_exec(app.list_selected, app.items.len());
        AppState::Main(self)
    }

    fn select_previous(self, app: &mut App) -> (r: AppState)
        requires
            old(app).current_state is None,
        ensures
            r is Main,
            final(app).current_state is None,
            final(app)@ == (AppView {
                list_selected: previous_index(
                    old(app)@.list_selected,
                    old(app)@.records.len() as int,
                ),
                field_selected: None,
                ..old(app)@
            }),
    {
        app.field_selected = None;
        app.list_selected = previous_index_exec(app.list_selected, app.items.len());
        AppState::Main(self)
    }

    fn state_next(self, app: &mut App) -> (r: AppState)
        requires
            old(app).current_state is None,
        ensures
            final(app).current_state is None,
            match old(app)@.list_selected {
                Some(i) => mode_of(r) == (ModeView::Select { idx: i }) && final(app)@ == (
                AppView { field_selected: Some(0), ..old(app)@ }),
                None => r is Main && final(app)@ == old(app)@,
            },
    {
        if let Some(idx) = app.list_selected {
            app.field_selected = Some(0);
            AppState::Select(Select { idx })
        } else {
            AppState::Main(self)
        }
    }

    fn select_first(self, app: &mut App) -> (r: AppState)
        requires
            old(app).current_state is None,
        ensures
            r is Main,
            final(app).current_state is None,
            final(app)@ == (AppView {
                list_selected: first_index(old(app)@.records.len() as int),
                field_selected: None,
                ..old(app)@
            }),
    {
        app.field_selected = None;
        app.list_selected = if app.items.len() == 0 {
            None
        } else {
            Some(0)
        };
        AppState::Main(self)
    }

    fn select_last(self, app: &mut App) -> (r: AppState)
        requires
            old(app).current_state is None,
        ensures
            r is Main,
            final(app).current_state is None,
            final(app)@ == (AppView {
                list_selected: last_index(old(app)@.records.len() as int),
                field_selected: None,
                ..old(app)@
            }),
    {
        app.field_selected = None;
        app.list_selected = if app.items.len() == 0 {
            None
        } else {
            Some(app.items.len() - 1)
        };
        AppState::Main(self)
    }

    fn delete(self, app: &mut App) -> (r: AppState)
        requires
            old(app).current_state is None,
            old(app)@.well_formed(),
        ensures
            r is Main,
            final(app).current_state is None,
            final(app)@ == match old(app)@.list_selected {
                Some(i) => AppView {
                    records: old(app)@.records.remove(i),
                    list_selected: clamp_index(i, old(app)@.records.len() - 1),
                    ..old(app)@
                },
                None => old(app)@,
            },
    {
        if let Some(i) = app.list_selected {
            let ghost before = app.items@;
            app.items.remove(i);
            assert(records(app.items@) =~= records(before).remove(i as int));
            app.list_selected = clamp_index_exec(i, app.items.len());
        }
        AppState::Main(self)
    }
}

impl Select {
    fn handle_key_select(self, app: &mut App, key: KeyInput)
        requires
            old(app).current_state is None,
            old(app)@.well_formed(),
            self.idx < old(app)@.records.len(),
        ensures
            final(app).current_state is Some,
            final(app)@ == select_transition(
                AppView { mode: ModeView::Select { idx: self.idx as int }, ..old(app)@ },
                self.idx as int,
                key.code,
            ),
    {
        let new_state = match key.code {
            KeyCode::Char('q') | KeyCode::Esc => self.quit(app),
            KeyCode::Char('j') | KeyCode::Down => self.select_next(app),
            KeyCode::Char('k') | KeyCode::Up => self.select_previous(app),
            KeyCode::Char('h') | KeyCode::Left => self.state_back(),
            KeyCode::Char('l') | KeyCode::Right => self.state_next(app),
            KeyCode::Char('d') | KeyCode::Delete => self.delete(app),
            _ => AppState::Select(self),
        };
        app.current_state = Some(new_state);
    }

    fn quit(self, app: &mut App) -> (r: AppState)
        requires
            old(app).current_state is None,
        ensures
            mode_of(r) == (ModeView::Select { idx: self.idx as int }),
            final(app).current_state is None,
            final(app)@ == (AppView { exit: true, ..old(app)@ }),
    {
        app.should_exit = true;
        AppState::Select(self)
    }

    fn select_next(self, app: &mut App) -> (r: AppState)
        requires
            old(app).current_state is None,
        ensures
            mode_of(r) == (ModeView::Select { idx: self.idx as int }),
            final(app).current_state is None,
            final(app)@ == (AppView {
                field_selected: next_index(old(app)@.field_selected, KEY_COUNT as int),
                ..old(app)@
            }),
    {
        app.field_selected = next_index_exec(app.field_selected, KEY_COUNT);
        AppState::Select(self)
    }

    fn select_previous(self, app: &mut App) -> (r: AppState)
        requires
            old(app).current_state is None,
        ensures
            mode_of(r) == (ModeView::Select { idx: self.idx as int }),
            final(app).current_state is None,
            final(app)@ == (AppView {
                field_selected: previous_index(old(app)@.field_selected, KEY_COUNT as int),
                ..old(app)@
            }),
    {
        app.field_selected = previous_index_exec(app.field_selected, KEY_COUNT);
        AppState::Select(self)
    }

    fn state_back(self) -> (r: AppState)
        ensures
            r is Main,
    {
        AppState::Main(Main)
    }

    fn state_next(self, app: &App) -> (r: AppState)
        requires
            app@.well_formed(),
            self.idx < app@.records.len(),
        ensures
            match app@.field_selected {
                Some(i) => mode_of(r) == (ModeView::Edit {
                    idx: self.idx as int,
                    key: key_at(i),
                    lines: seeded_lines(app@.records[self.idx as int], key_at(i)),
                }),
                None => mode_of(r) == (ModeView::Select { idx: self.idx as int }),
            },
    {
        let cfg_idx = self.idx;
        if let Some(i) = app.field_selected {
            let key = Key::at(i);
            let value = app.items[cfg_idx].get(key);
            let mut v: Vec<String> = Vec::new();
            if let Some(x) = value {
                v.push(x.clone());
            }
            assert((if v@.len() == 0 {
                seq![Seq::<char>::empty()]
            } else {
                v@.map_values(|s: String| s@)
            }) =~= seeded_lines(app@.records[cfg_idx as int], key));
            let mut textarea = new_text_area(v);
            move_cursor_to_end(&mut textarea);
            AppState::Edit(Edit { config_idx: cfg_idx, key, textarea })
        } else {
            AppState::Select(self)
        }
    }

    fn delete(self, app: &mut App) -> (r: AppState)
        requires
            old(app).current_state is None,
            old(app)@.well_formed(),
            self.idx < old(app)@.records.len(),
        ensures
            mode_of(r) == (ModeView::Select { idx: self.idx as int }),
            final(app).current_state is None,
            final(app)@ == match old(app)@.field_selected {
                Some(i) => AppView {
                    records: old(app)@.records.update(
                        self.idx as int,
                        without_field(old(app)@.records[self.idx as int], key_at(i)),
                    ),
                    ..old(app)@
                },
                None => old(app)@,
            },
    {
        if let Some(i) = app.field_selected {
            let cfg_idx = self.idx;
            let key = Key::at(i);
            let ghost before = app.items@;
            let mut c = app.items.remove(cfg_idx);
            c.remove(key);
            let ghost cv = c;
            app.items.insert(cfg_idx, c);
            assert(app.items@ =~= before.update(cfg_idx as int, cv));
            assert(records(app.items@) =~= records(before).update(cfg_idx as int, cv@));
        }
        AppState::Select(self)
    }
}

impl Edit {
    fn handle_key_edit(self, app: &mut App, key: KeyInput)
        requires
            old(app).current_state is None,
            old(app)@.well_formed(),
            self.config_idx < old(app)@.records.len(),
            text_lines(self.textarea).len() >= 1,
        ensures
            final(app).current_state is Some,
            ({
                let v = AppView { mode: mode_of(AppState::Edit(self)), ..old(app)@ };
                if key.code == KeyCode::Esc || key.code == KeyCode::Enter {
                    final(app)@ == edit_transition(
                        v,
                        self.config_idx as int,
                        self.key,
                        text_lines(self.textarea),
                        key.code,
                    )
                } else {
                    buffer_edited(v, final(app)@)
                }
            }),
    {
        let new_state = match key.code {
            KeyCode::Esc => self.state_back(),
            KeyCode::Enter => self.state_save(app),
            _ => self.other_input(key.text),
        };
        app.current_state = Some(new_state);
    }

    fn state_back(self) -> (r: AppState)
        ensures
            mode_of(r) == (ModeView::Select { idx: self.config_idx as int }),
    {
        let idx = self.config_idx;
        AppState::Select(Select { idx })
    }

    fn state_save(self, app: &mut App) -> (r: AppState)
        requires
            old(app).current_state is None,
            self.config_idx < old(app)@.records.len(),
            text_lines(self.textarea).len() >= 1,
        ensures
            mode_of(r) == (ModeView::Select { idx: self.config_idx as int }),
            final(app).current_state is None,
            final(app)@ == (AppView {
                records: old(app)@.records.update(
                    self.config_idx as int,
                    with_field(
                        old(app)@.records[self.config_idx as int],
                        self.key,
                        text_lines(self.textarea)[0],
                    ),
                ),
                ..old(app)@
            }),
    {
        let idx = self.config_idx;
        let content = first_line(&self.textarea);
        let ghost before = app.items@;
        let mut c = app.items.remove(idx);
        c.set(self.key, content);
        let ghost cv = c;
        app.items.insert(idx, c);
        assert(app.items@ =~= before.update(idx as int, cv));
        assert(records(app.items@) =~= records(before).update(idx as int, cv@));
        AppState::Select(Select { idx })
    }

    fn other_input(self, input: Input) -> (r: AppState)
        requires
            text_lines(self.textarea).len() >= 1,
        ensures
            r matches AppState::Edit(e) && e.config_idx == self.config_idx && e.key == self.key
                && text_lines(e.textarea).len() >= 1,
    {
        let mut this = self;
        apply_input(&mut this.textarea, input);
        AppState::Edit(this)
    }
}

impl App {
    /// Whether the editor's invariants hold.
    pub closed spec fn wf(&self) -> bool {
        self.current_state is Some && self@.well_formed()
    }

    /// A session over `items`, browsing the record list with nothing selected.
    pub fn with_config(items: Vec<Config>) -> (r: App)
        ensures
            r.wf(),
            r@ == (AppView {
                exit: false,
                records: records(items@),
                list_selected: None,
                field_selected: None,
                mode: ModeView::Main,
            }),
    {
        App {
            should_exit: false,
            items,
            list_selected: None,
            field_selected: None,
            current_state: Some(AppState::Main(Main)),
        }
    }

    /// Applies one key event to the session; only presses have an effect.
    pub fn handle_key(&mut self, key: KeyInput)
        requires
            old(self).wf(),
        ensures
            final(self).wf(),
            key.kind != KeyKind::Press ==> final(self)@ == old(self)@,
            key.kind == KeyKind::Press ==> match old(self)@.mode {
                ModeView::Main => final(self)@ == main_transition(old(self)@, key.code),
                ModeView::Select { idx } => final(self)@ == select_transition(
                    old(self)@,
                    idx,
                    key.code,
                ),
                ModeView::Edit { idx, key: k, lines } => if key.code == KeyCode::Esc || key.code
                    == KeyCode::Enter {
                    final(self)@ == edit_transition(old(self)@, idx, k, lines, key.code)
                } else {
                    buffer_edited(old(self)@, final(self)@)
                },
            },
    {
        if key.kind != KeyKind::Press {
            return;
        }
        match self.current_state.take() {
            Some(AppState::Main(main)) => main.handle_key_main(self, key),
            Some(AppState::Select(select)) => select.handle_key_select(self, key),
            Some(AppState::Edit(edit)) => edit.handle_key_edit(self, key),
            None => {},
        }
    }

    /// Whether quitting was asked for.
    pub fn should_exit(&self) -> (r: bool)
        ensures
            r == self@.exit,
    {
        self.should_exit
    }

    /// The records, as edited so far.
    pub fn config(&self) -> (r: &Vec<Config>)
        ensures
            records(r@) == self@.records,
    {
        &self.items
    }

    /// The cursor over the record list.
    pub fn selected(&self) -> (r: Option<usize>)
        ensures
            opt_int(r) == self@.list_selected,
    {
        self.list_selected
    }

    /// The cursor over the field list.
    pub fn field_selected(&self) -> (r: Option<usize>)
        ensures
            opt_int(r) == self@.field_selected,
    {
        self.field_selected
    }

    /// The current mode.
    pub fn state(&self) -> (r: &AppState)
        requires
            self.wf(),
        ensures
            mode_of(*r) == self@.mode,
    {
        self.current_state.as_ref().unwrap()
    }
}

impl Default for App {
    /// A session over the sample records of `Config::mock`.
    fn default() -> (r: App)
        ensures
            r.wf(),
            r@.exit == false,
            r@.records == mock_records(),
            r@.list_selected is None,
            r@.field_selected is None,
            r@.mode is Main,
    {
        App::with_config(Config::mock())
    }
}

/// Entering the field view from the record list opens the record under the cursor with
/// the field cursor on the first field, whatever the field cursor was before.
pub proof fn lemma_enter_field_view(v: AppView, c: KeyCode)
    requires
        v.well_formed(),
        v.mode is Main,
        v.list_selected is Some,
        c == KeyCode::Char('l') || c == KeyCode::Right,
    ensures
        main_transition(v, c).mode == (ModeView::Select { idx: v.list_selected->Some_0 }),
        main_transition(v, c).field_selected == Some(0int),
        main_transition(v, c).records == v.records,
        main_transition(v, c).well_formed(),
{
}

/// Deleting the highlighted field of record `idx` removes exactly that key from that
/// record, and leaves its host, its other fields and every other record as they were.
pub proof fn lemma_delete_field(v: AppView, idx: int, c: KeyCode)
    requires
        v.well_formed(),
        v.mode == (ModeView::Select { idx }),
        v.field_selected is Some,
        c == KeyCode::Char('d') || c == KeyCode::Delete,
    ensures
        ({
            let w = select_transition(v, idx, c);
            let k = key_at(v.field_selected->Some_0);
            &&& w.records.len() == v.records.len()
            &&& w.records[idx].host == v.records[idx].host
            &&& !w.records[idx].fields.contains_key(k)
            &&& forall|k2: Key|
                k2 != k ==> (#[trigger] w.records[idx].fields.contains_key(k2)
                    == v.records[idx].fields.contains_key(k2) && w.records[idx].fields[k2]
                    == v.records[idx].fields[k2])
            &&& forall|j: int|
                0 <= j < v.records.len() && j != idx ==> #[trigger] w.records[j] == v.records[j]
        }),
{
}

/// Edits to the buffer followed by cancelling leave the records as they were before the
/// edit began.
pub proof fn lemma_cancel_keeps_records(v: AppView, w: AppView, idx: int, k: Key, lines: Seq<
    Seq<char>,
>)
    requires
        v.well_formed(),
        v.mode == (ModeView::Edit { idx, key: k, lines }),
        w == v || buffer_edited(v, w),
    ensures
        ({
            let u = match w.mode {
                ModeView::Edit { idx: j, key: k2, lines: l } => edit_transition(
                    w,
                    j,
                    k2,
                    l,
                    KeyCode::Esc,
                ),
                _ => w,
            };
            &&& u.records == v.records
            &&& u.mode == (ModeView::Select { idx })
        }),
{
}

/// Edits to the buffer compose: several in a row are again an edit to the buffer.
pub proof fn lemma_buffer_edits_compose(u: AppView, v: AppView, w: AppView)
    requires
        buffer_edited(u, v),
        buffer_edited(v, w),
    ensures
        buffer_edited(u, w),
{
}

/// Committing sets the edited field to the buffer's first line exactly, adding it when it
/// was absent.
pub proof fn lemma_commit_sets_field(v: AppView, idx: int, k: Key, lines: Seq<Seq<char>>)
    requires
        v.well_formed(),
        v.mode == (ModeView::Edit { idx, key: k, lines }),
    ensures
        ({
            let w = edit_transition(v, idx, k, lines, KeyCode::Enter);
            &&& w.records.len() == v.records.len()
            &&& w.records[idx].fields.contains_key(k)
            &&& w.records[idx].fields[k] == lines[0]
            &&& w.mode == (ModeView::Select { idx })
            &&& w.well_formed()
        }),
{
}

/// Deleting in the record list removes exactly one record when one is selected, and
/// changes nothing when none is.
pub proof fn lemma_delete_record(v: AppView, c: KeyCode)
    requires
        v.well_formed(),
        v.mode is Main,
        c == KeyCode::Char('d') || c == KeyCode::Delete,
    ensures
        v.list_selected is Some ==> main_transition(v, c).records.len() == v.records.len() - 1,
        v.list_selected is None ==> main_transition(v, c) == v,
        main_transition(v, c).well_formed(),
{
}

} // verus!
