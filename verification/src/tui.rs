//! The terminal side of the selection: what each key asks for, and what is
//! drawn for a state.

use ratatui::layout::{Constraint, Direction, Layout};
use vstd::prelude::*;
use crate::app::{as_index, Action, App, AppView, SelectionPhase};
use crate::config::ValueEntry;
use crate::i18n::message;
use crate::layout::{centered, centered_rect, Rect};

verus! {

/// How long the event loop waits for a key before it draws again, in
/// milliseconds.
pub const POLL_INTERVAL_MS: u64 = 250;

/// The share of the terminal's width that the list takes, in percent.
pub const LIST_WIDTH_PERCENT: u16 = 80;

/// The rows that the list needs besides its items: two for the border and
/// one for the key hint.
pub const LIST_EXTRA_ROWS: u16 = 3;

/// The rows that the key hint takes at the bottom of the region.
pub const KEY_HINT_ROWS: u16 = 1;

/// The rows that the list is given at least; it takes all that the key hint
/// leaves.
pub const LIST_MIN_ROWS: u16 = 0;

/// A key, as far as the selection tells keys apart.
#[derive(Debug, Clone, Copy, PartialEq, Eq, Structural)]
pub enum KeyCode {
    Char(char),
    Enter,
    Esc,
    Up,
    Down,
    /// Any other key.
    Other,
}

/// What happened to a key.
#[derive(Debug, Clone, Copy, PartialEq, Eq, Structural)]
pub enum KeyEventKind {
    Press,
    Repeat,
    Release,
}

/// A key together with what happened to it.
#[derive(Debug, Clone, Copy, PartialEq, Eq, Structural)]
pub struct KeyEvent {
    pub code: KeyCode,
    pub kind: KeyEventKind,
}

/// An event of the terminal.
#[derive(Debug, Clone, Copy, PartialEq, Eq, Structural)]
pub enum Event {
    Key(KeyEvent),
    /// Anything that is not a key: a resize, the mouse, a paste.
    Other,
}

/// What a key asks for while a variable is picked: `q` and Esc quit, the
/// arrows and `k`, `j` move the cursor, Enter confirms.
pub open spec fn variable_selection_action(key_code: KeyCode) -> Action {
    match key_code {
        KeyCode::Char(c) => if c == 'q' {
            Action::Quit
        } else if c == 'k' {
            Action::Up
        } else if c == 'j' {
            Action::Down
        } else {
            Action::Nothing
        },
        KeyCode::Esc => Action::Quit,
        KeyCode::Up => Action::Up,
        KeyCode::Down => Action::Down,
        KeyCode::Enter => Action::Confirm,
        KeyCode::Other => Action::Nothing,
    }
}

/// What a key asks for while a value is picked: `q` quits, Esc cancels, the
/// arrows and `k`, `j` move the cursor, Enter confirms.
pub open spec fn value_selection_action(key_code: KeyCode) -> Action {
    match key_code {
        KeyCode::Char(c) => if c == 'q' {
            Action::Quit
        } else if c == 'k' {
            Action::Up
        } else if c == 'j' {
            Action::Down
        } else {
            Action::Nothing
        },
        KeyCode::Esc => Action::Cancel,
        KeyCode::Up => Action::Up,
        KeyCode::Down => Action::Down,
        KeyCode::Enter => Action::Confirm,
        KeyCode::Other => Action::Nothing,
    }
}

/// What a key asks for in a phase.
pub open spec fn key_action(phase: SelectionPhase, key_code: KeyCode) -> Action {
    match phase {
        SelectionPhase::Variable => variable_selection_action(key_code),
        SelectionPhase::Value => value_selection_action(key_code),
    }
}

/// What an event asks for in a phase: a key that was pressed asks for its
/// action, anything else for nothing.
pub open spec fn event_action(phase: SelectionPhase, event: Event) -> Action {
    match event {
        Event::Key(key) => if key.kind == KeyEventKind::Press {
            key_action(phase, key.code)
        } else {
            Action::Nothing
        },
        Event::Other => Action::Nothing,
    }
}

/// Handle key presses during the variable selection phase. In the other
/// phase the keys are not for this handler, and nothing changes.
pub fn handle_variable_selection_keys(key_code: KeyCode, app: &mut App)
    ensures
        final(app)@ == old(app)@.after(
            if old(app)@.state.phase == SelectionPhase::Variable {
                variable_selection_action(key_code)
            } else {
                Action::Nothing
            },
        ),
        final(app)@.valid(),
{
    proof {
        use_type_invariant(&*app);
    }
    if app.current_phase() != SelectionPhase::Variable {
        return;
    }
    match key_code {
        KeyCode::Char('q') | KeyCode::Esc => app.apply(Action::Quit),
        KeyCode::Up | KeyCode::Char('k') => app.apply(Action::Up),
        KeyCode::Down | KeyCode::Char('j') => app.apply(Action::Down),
        KeyCode::Enter => app.apply(Action::Confirm),
        _ => {},
    }
}

/// Handle key presses during the value selection phase. In the other phase
/// the keys are not for this handler, and nothing changes.
pub fn handle_value_selection_keys(key_code: KeyCode, app: &mut App)
    ensures
        final(app)@ == old(app)@.after(
            if old(app)@.state.phase == SelectionPhase::Value {
                value_selection_action(key_code)
            } else {
                Action::Nothing
            },
        ),
        final(app)@.valid(),
{
    proof {
        use_type_invariant(&*app);
    }
    if app.current_phase() != SelectionPhase::Value {
        return;
    }
    match key_code {
        KeyCode::Char('q') => app.apply(Action::Quit),
        KeyCode::Esc => app.apply(Action::Cancel),
        KeyCode::Up | KeyCode::Char('k') => app.apply(Action::Up),
        KeyCode::Down | KeyCode::Char('j') => app.apply(Action::Down),
        KeyCode::Enter => {
            // Final selection is made, quit the TUI to output the command.
            app.apply(Action::Confirm)
        },
        _ => {},
    }
}

/// Handle user input events: a pressed key changes the state as the phase
/// has it, any other event is ignored.
pub fn handle_events(app: &mut App, event: Event)
    ensures
        final(app)@ == old(app)@.after(event_action(old(app)@.state.phase, event)),
        final(app)@.valid(),
{
    proof {
        use_type_invariant(&*app);
    }
    match event {
        Event::Key(key) => {
            if key.kind == KeyEventKind::Press {
                match app.current_phase() {
                    SelectionPhase::Variable => handle_variable_selection_keys(key.code, app),
                    SelectionPhase::Value => handle_value_selection_keys(key.code, app),
                }
            }
        },
        Event::Other => {},
    }
}

/// The character sequences of a list of string slices.
pub open spec fn texts(items: Seq<&str>) -> Seq<Seq<char>> {
    Seq::new(items.len(), |i: int| items[i]@)
}

/// The labels of a variable's values.
pub open spec fn labels(values: Seq<ValueEntry>) -> Seq<Seq<char>> {
    Seq::new(values.len(), |i: int| values[i].label)
}

/// What the list shows: the names of the variables while a variable is
/// picked, the labels of the selected variable's values while a value is.
pub open spec fn listed_items(app: AppView) -> Seq<Seq<char>> {
    match app.state.phase {
        SelectionPhase::Variable => app.names,
        SelectionPhase::Value => match app.state.selected_variable {
            Some(name) => labels(app.config[name]),
            None => Seq::empty(),
        },
    }
}

/// The cursor of the list on show.
pub open spec fn listed_cursor(app: AppView) -> Option<nat> {
    match app.state.phase {
        SelectionPhase::Variable => app.state.variable_cursor,
        SelectionPhase::Value => app.state.value_cursor,
    }
}

/// The key of the message that heads the list.
pub open spec fn title_key(phase: SelectionPhase) -> Seq<char> {
    match phase {
        SelectionPhase::Variable => "select_variable"@,
        SelectionPhase::Value => "select_value"@,
    }
}

/// The key of the message that names the keys in use.
pub open spec fn key_hint_key(phase: SelectionPhase) -> Seq<char> {
    match phase {
        SelectionPhase::Variable => "key_hint_variable_selection"@,
        SelectionPhase::Value => "key_hint_value_selection"@,
    }
}

/// What is drawn for a state: a list with a title and a highlighted item,
/// a line of key hints, and where they go.
#[derive(Debug)]
pub struct DrawModel<'a> {
    /// The items of the list.
    pub items: Vec<&'a str>,
    /// The title on the list's border.
    pub title: &'a str,
    /// The line below the list.
    pub key_hint: &'a str,
    /// The item to highlight.
    pub selected: Option<usize>,
    /// The region that list and key hint take together.
    pub area: Rect,
    /// The part of the region for the list with its border.
    pub list_area: Rect,
    /// The part of the region for the key hint.
    pub hint_area: Rect,
}

/// Splits an area, given by its x, y, width and height, into two rows of
/// cells with ratatui's `Layout::split`, under the constraints
/// `Min(list_min)` for the upper and `Length(hint_rows)` for the lower one.
/// Each row comes back as its x, y, width and height.
///
/// A vertical layout without margin hands each row the x and the width of
/// the area; that much is claimed. Where the rows begin and how high they
/// are is left to ratatui's constraint solver, and nothing is claimed of it.
#[verifier::external_body]
fn split_rows(area: (u16, u16, u16, u16), list_min: u16, hint_rows: u16) -> (rows: (
    (u16, u16, u16, u16),
    (u16, u16, u16, u16),
))
    ensures
        rows.0.0 == area.0 && rows.0.2 == area.2,
        rows.1.0 == area.0 && rows.1.2 == area.2,
{
    let whole = ratatui::layout::Rect { x: area.0, y: area.1, width: area.2, height: area.3 };
    let rows = Layout::default()
        .direction(Direction::Vertical)
        .constraints([Constraint::Min(list_min), Constraint::Length(hint_rows)])
        .split(whole);
    let (list, hint) = (rows[0], rows[1]);
    ((list.x, list.y, list.width, list.height), (hint.x, hint.y, hint.width, hint.height))
}

/// The names of the variables as list items.
fn variable_items<'b>(app: &'b App) -> (items: Vec<&'b str>)
    ensures
        texts(items@) == app@.names,
{
    let names = app.sorted_variable_names();
    let mut items: Vec<&'b str> = Vec::new();
    let mut i: usize = 0;
    while i < names.len()
        invariant
            i <= names.len(),
            items@.len() == i,
            forall|k: int| 0 <= k < i ==> items@[k]@ == names@[k]@,
        decreases names.len() - i,
    {
        items.push(names[i].as_str());
        i += 1;
    }
    items
}

/// The labels of the selected variable's values as list items.
fn value_items<'b>(app: &'b App) -> (items: Vec<&'b str>)
    ensures
        texts(items@) == match app@.state.selected_variable {
            Some(name) => labels(app@.config[name]),
            None => Seq::empty(),
        },
{
    proof {
        use_type_invariant(app);
    }
    let mut items: Vec<&'b str> = Vec::new();
    if let Some(name) = app.selected_variable() {
        if let Some(var) = app.config().get(name) {
            let mut i: usize = 0;
            while i < var.values.len()
                invariant
                    i <= var.values.len(),
                    items@.len() == i,
                    forall|k: int| 0 <= k < i ==> items@[k]@ == var.values@[k].label@,
                decreases var.values.len() - i,
            {
                items.push(var.values[i].label.as_str());
                i += 1;
            }
        }
    }
    items
}

/// Projects the state into what is to be drawn on a frame.
///
/// The list shows the items of the phase, under the phase's title and above
/// its key hint, with the phase's cursor highlighted. It takes the middle
/// of the frame: `LIST_WIDTH_PERCENT` of the width, and a row for each item
/// and `LIST_EXTRA_ROWS` more, as far as the frame has them. List and key
/// hint each span the width of that region; which of its rows each of them
/// gets is ratatui's to say.
pub fn draw<'b>(app: &'b App, frame: Rect) -> (model: DrawModel<'b>)
    ensures
        texts(model.items@) == listed_items(app@),
        model.title@ == message(app@.messages, title_key(app@.state.phase)),
        model.key_hint@ == message(app@.messages, key_hint_key(app@.state.phase)),
        as_index(model.selected) == listed_cursor(app@),
        model.area@ == centered(
            LIST_WIDTH_PERCENT as int,
            listed_items(app@).len() + LIST_EXTRA_ROWS,
            frame@,
        ),
        model.list_area@.x == model.area@.x && model.list_area@.width == model.area@.width,
        model.hint_area@.x == model.area@.x && model.hint_area@.width == model.area@.width,
{
    proof {
        use_type_invariant(&frame);
    }
    let i18n = app.i18n();
    let (items, selected, title, key_hint) = match app.current_phase() {
        SelectionPhase::Variable => (
            variable_items(app),
            app.variable_cursor(),
            i18n.get("select_variable"),
            i18n.get("key_hint_variable_selection"),
        ),
        SelectionPhase::Value => (
            value_items(app),
            app.value_cursor(),
            i18n.get("select_value"),
            i18n.get("key_hint_value_selection"),
        ),
    };
    // +2 for list borders, +1 for the key hint line.
    let total_height = if items.len() > (u16::MAX - LIST_EXTRA_ROWS) as usize {
        u16::MAX
    } else {
        items.len() as u16 + LIST_EXTRA_ROWS
    };
    let area = centered_rect(LIST_WIDTH_PERCENT, total_height, frame);
    let (list, hint) = split_rows(
        (area.x(), area.y(), area.width(), area.height()),
        LIST_MIN_ROWS,
        KEY_HINT_ROWS,
    );
    proof {
        use_type_invariant(&area);
    }
    DrawModel {
        items,
        title,
        key_hint,
        selected,
        area,
        list_area: Rect::new(list.0, list.1, list.2, list.3),
        hint_area: Rect::new(hint.0, hint.1, hint.2, hint.3),
    }
}

} // verus!
