//! The selection state machine: which variable is picked, then which of its
//! values.

use vstd::prelude::*;
use crate::config::{well_formed, Config, ValueEntry};
use crate::i18n::I18nMessages;
use crate::output::{command_text, generate_powershell_command};
use crate::text::{
    lemma_precedes_irreflexive, lemma_precedes_total, lemma_precedes_transitive, precedes,
    str_precedes, views,
};

verus! {

/// Represents the current phase of user selection.
#[derive(Debug, Clone, Copy, PartialEq, Eq, Structural)]
pub enum SelectionPhase {
    Variable,
    Value,
}

/// What a key press asks for, whatever the key that was pressed.
#[derive(Debug, Clone, Copy, PartialEq, Eq, Structural)]
pub enum Action {
    /// Leave the selection.
    Quit,
    /// Move the cursor one entry up.
    Up,
    /// Move the cursor one entry down.
    Down,
    /// Take the entry under the cursor.
    Confirm,
    /// Go back to the list of variables.
    Cancel,
    /// Do nothing.
    Nothing,
}

/// The state of a selection.
pub struct SelectionState {
    /// Whether a variable or one of its values is being picked.
    pub phase: SelectionPhase,
    /// Whether the selection has ended.
    pub quit: bool,
    /// The highlighted entry of the list of variables.
    pub variable_cursor: Option<nat>,
    /// The highlighted entry of the list of values.
    pub value_cursor: Option<nat>,
    /// The variable whose values are listed.
    pub selected_variable: Option<Seq<char>>,
}

/// An application as the contracts see it: the state of the selection, and
/// what it selects from.
pub struct AppView {
    pub state: SelectionState,
    /// The names of the variables, in the order in which they are listed.
    pub names: Seq<Seq<char>>,
    pub config: Map<Seq<char>, Seq<ValueEntry>>,
    pub messages: Map<Seq<char>, Seq<char>>,
}

/// Whether each name comes before all that follow it.
pub open spec fn sorted(names: Seq<Seq<char>>) -> bool {
    forall|i: int, j: int| 0 <= i < j < names.len() ==> precedes(names[i], names[j])
}

/// The state in which a selection starts.
pub open spec fn initial_state(names: Seq<Seq<char>>) -> SelectionState {
    SelectionState {
        phase: SelectionPhase::Variable,
        quit: false,
        variable_cursor: if names.len() > 0 {
            Some(0nat)
        } else {
            None
        },
        value_cursor: None,
        selected_variable: None,
    }
}

/// The state that follows `state` when `action` is asked for.
///
/// Cursors stop at both ends of their list. Confirming a variable lists its
/// values with the first one highlighted; confirming a value ends the
/// selection; cancelling goes back to the variables and forgets the choice;
/// quitting ends the selection and changes nothing else.
pub open spec fn next_state(
    state: SelectionState,
    names: Seq<Seq<char>>,
    config: Map<Seq<char>, Seq<ValueEntry>>,
    action: Action,
) -> SelectionState {
    match state.phase {
        SelectionPhase::Variable => match (action, state.variable_cursor) {
            (Action::Quit, _) => SelectionState { quit: true, ..state },
            (Action::Up, Some(i)) => if i > 0 {
                SelectionState { variable_cursor: Some((i - 1) as nat), ..state }
            } else {
                state
            },
            (Action::Down, Some(i)) => if i + 1 < names.len() {
                SelectionState { variable_cursor: Some(i + 1), ..state }
            } else {
                state
            },
            (Action::Confirm, Some(i)) => SelectionState {
                phase: SelectionPhase::Value,
                selected_variable: Some(names[i as int]),
                value_cursor: Some(0nat),
                ..state
            },
            _ => state,
        },
        SelectionPhase::Value => match action {
            Action::Quit | Action::Confirm => SelectionState { quit: true, ..state },
            Action::Cancel => SelectionState {
                phase: SelectionPhase::Variable,
                selected_variable: None,
                value_cursor: None,
                ..state
            },
            Action::Up => match (state.selected_variable, state.value_cursor) {
                (Some(_), Some(j)) => if j > 0 {
                    SelectionState { value_cursor: Some((j - 1) as nat), ..state }
                } else {
                    state
                },
                _ => state,
            },
            Action::Down => match (state.selected_variable, state.value_cursor) {
                (Some(name), Some(j)) => if j + 1 < config[name].len() {
                    SelectionState { value_cursor: Some(j + 1), ..state }
                } else {
                    state
                },
                _ => state,
            },
            Action::Nothing => state,
        },
    }
}

impl AppView {
    /// What holds of every application: the names are those of the
    /// configuration, in ascending order; the cursor of the variables is on
    /// one of them unless there is none; and while a value is picked, the
    /// variable under the cursor is the selected one and the cursor of the
    /// values is on one of its values.
    pub open spec fn valid(self) -> bool {
        &&& well_formed(self.config)
        &&& sorted(self.names)
        &&& self.names.to_set() == self.config.dom()
        &&& match self.state.variable_cursor {
            Some(i) => i < self.names.len(),
            None => self.names.len() == 0,
        }
        &&& match self.state.phase {
            SelectionPhase::Variable => self.state.selected_variable is None
                && self.state.value_cursor is None,
            SelectionPhase::Value => {
                &&& self.state.variable_cursor matches Some(i)
                &&& self.state.selected_variable == Some(self.names[i as int])
                &&& self.state.value_cursor matches Some(j)
                &&& j < self.config[self.names[i as int]].len()
            },
        }
    }

    /// The application after `action`.
    pub open spec fn after(self, action: Action) -> AppView {
        AppView { state: next_state(self.state, self.names, self.config, action), ..self }
    }

    /// The application after each of `actions` in turn.
    pub open spec fn after_all(self, actions: Seq<Action>) -> AppView
        decreases actions.len(),
    {
        if actions.len() == 0 {
            self
        } else {
            self.after_all(actions.drop_last()).after(actions.last())
        }
    }

    /// The command that assigns the chosen value, once a value is under the
    /// cursor of the selected variable.
    pub open spec fn command(self) -> Option<Seq<char>> {
        match (self.state.selected_variable, self.state.value_cursor) {
            (Some(name), Some(j)) => if self.config.contains_key(name) && j
                < self.config[name].len() {
                Some(command_text(name, self.config[name][j as int].value))
            } else {
                None
            },
            _ => None,
        }
    }
}

/// A cursor as a position in a list.
pub open spec fn as_index(cursor: Option<usize>) -> Option<nat> {
    match cursor {
        Some(i) => Some(i as nat),
        None => None,
    }
}

/// Putting a name into an ascending list, behind all that come before it
/// and in front of all that come after it, keeps the list ascending and adds
/// the name to what it holds.
proof fn lemma_insert_sorted(names: Seq<Seq<char>>, at: int, name: Seq<char>)
    requires
        sorted(names),
        0 <= at <= names.len(),
        forall|i: int| 0 <= i < at ==> precedes(#[trigger] names[i], name),
        at < names.len() ==> precedes(name, names[at]),
    ensures
        sorted(names.insert(at, name)),
        names.insert(at, name).to_set() == names.to_set().insert(name),
{
    let longer = names.insert(at, name);
    assert forall|i: int, j: int| 0 <= i < j < longer.len() implies precedes(
        longer[i],
        longer[j],
    ) by {
        if i == at && j > at + 1 {
            lemma_precedes_transitive(name, names[at], names[j - 1]);
        }
    }
    assert forall|x: Seq<char>| longer.to_set().contains(x) <==> names.to_set().insert(
        name,
    ).contains(x) by {
        if names.contains(x) {
            let i = choose|i: int| 0 <= i < names.len() && names[i] == x;
            if i < at {
                assert(longer[i] == x);
            } else {
                assert(longer[i + 1] == x);
            }
        }
        if x == name {
            assert(longer[at] == x);
        }
    }
}

/// The names of the variables of a configuration, in ascending order.
pub fn sorted_names(config: &Config) -> (sorted_variable_names: Vec<String>)
    ensures
        well_formed(config@),
        sorted(views(sorted_variable_names@)),
        views(sorted_variable_names@).to_set() == config@.dom(),
{
    let keys = config.keys();
    let ghost source = keys@;
    let mut ordered: Vec<String> = Vec::new();
    for key in it: keys
        invariant
            it.seq() == source,
            views(source).no_duplicates(),
            sorted(views(ordered@)),
            views(ordered@).to_set() == views(source.take(it.index())).to_set(),
    {
        let ghost before = ordered@;
        let mut at: usize = 0;
        while at < ordered.len() && str_precedes(ordered[at].as_str(), key.as_str())
            invariant
                at <= ordered.len(),
                forall|i: int| 0 <= i < at ==> precedes(#[trigger] views(ordered@)[i], key@),
            decreases ordered.len() - at,
        {
            at += 1;
        }
        proof {
            // The key is new to the list, so it comes before the entry that
            // does not come before it.
            let placed = views(source.take(it.index()));
            assert(views(source)[it.index()] == key@);
            assert(!placed.contains(key@)) by {
                if placed.contains(key@) {
                    let i = choose|i: int| 0 <= i < placed.len() && placed[i] == key@;
                    assert(views(source)[i] == key@);
                }
            }
            assert(!views(before).to_set().contains(key@));
            if at < before.len() {
                lemma_precedes_total(key@, views(before)[at as int]);
            }
            lemma_insert_sorted(views(before), at as int, key@);
            assert(views(source.take(it.index() + 1)) =~= placed.push(key@));
            placed.lemma_push_to_set_commute(key@);
        }
        ordered.insert(at, key);
        assert(views(ordered@) =~= views(before).insert(at as int, key@));
    }
    assert(source.take(source.len() as int) =~= source);
    ordered
}

/// Holds the entire state of the application.
#[derive(Debug)]
pub struct App<'a> {
    should_quit: bool,
    config: &'a Config,
    i18n: &'a I18nMessages,
    // A sorted list of variable names for consistent display order.
    sorted_variable_names: Vec<String>,
    variable_cursor: Option<usize>,
    // Set while the values of the variable under the cursor are listed.
    value_cursor: Option<usize>,
}

impl<'a> View for App<'a> {
    type V = AppView;

    closed spec fn view(&self) -> AppView {
        AppView {
            state: SelectionState {
                phase: if self.value_cursor is Some {
                    SelectionPhase::Value
                } else {
                    SelectionPhase::Variable
                },
                quit: self.should_quit,
                variable_cursor: as_index(self.variable_cursor),
                value_cursor: as_index(self.value_cursor),
                selected_variable: match (self.variable_cursor, self.value_cursor) {
                    (Some(i), Some(_)) => Some(self.sorted_variable_names@[i as int]@),
                    _ => None,
                },
            },
            names: views(self.sorted_variable_names@),
            config: self.config@,
            messages: self.i18n@,
        }
    }
}

impl<'a> App<'a> {
    /// Every application is valid.
    #[verifier::type_invariant]
    pub open spec fn is_valid(&self) -> bool {
        self@.valid()
    }

    /// Creates a new App instance with initial state.
    pub fn new(config: &'a Config, i18n: &'a I18nMessages) -> (app: Self)
        ensures
            app@.valid(),
            app@.config == config@,
            app@.messages == i18n@,
            app@.state == initial_state(app@.names),
    {
        let sorted_variable_names = sorted_names(config);
        let variable_cursor = if sorted_variable_names.len() > 0 {
            Some(0)
        } else {
            None
        };
        App {
            should_quit: false,
            config,
            i18n,
            sorted_variable_names,
            variable_cursor,
            value_cursor: None,
        }
    }

    /// Whether the selection has ended.
    pub fn should_quit(&self) -> (quit: bool)
        ensures
            quit == self@.state.quit,
    {
        self.should_quit
    }

    /// The phase of the selection.
    pub fn current_phase(&self) -> (phase: SelectionPhase)
        ensures
            phase == self@.state.phase,
    {
        if self.value_cursor.is_some() {
            SelectionPhase::Value
        } else {
            SelectionPhase::Variable
        }
    }

    /// The highlighted entry of the list of variables.
    pub fn variable_cursor(&self) -> (cursor: Option<usize>)
        ensures
            as_index(cursor) == self@.state.variable_cursor,
    {
        self.variable_cursor
    }

    /// The highlighted entry of the list of values.
    pub fn value_cursor(&self) -> (cursor: Option<usize>)
        ensures
            as_index(cursor) == self@.state.value_cursor,
    {
        self.value_cursor
    }

    /// The variable name selected in the first phase.
    pub fn selected_variable(&self) -> (name: Option<&str>)
        ensures
            match name {
                Some(selected) => self@.state.selected_variable == Some(selected@),
                None => self@.state.selected_variable is None,
            },
    {
        proof {
            use_type_invariant(self);
        }
        match (self.variable_cursor, self.value_cursor) {
            (Some(i), Some(_)) => Some(self.sorted_variable_names[i].as_str()),
            _ => None,
        }
    }

    /// The names of the variables, in the order in which they are listed.
    pub fn sorted_variable_names(&self) -> (names: &Vec<String>)
        ensures
            views(names@) == self@.names,
    {
        &self.sorted_variable_names
    }

    /// The configuration that the selection is made from.
    pub fn config(&self) -> (config: &'a Config)
        ensures
            config@ == self@.config,
    {
        self.config
    }

    /// The messages of the interface.
    pub fn i18n(&self) -> (i18n: &'a I18nMessages)
        ensures
            i18n@ == self@.messages,
    {
        self.i18n
    }

    /// Changes the state as `action` asks.
    pub fn apply(&mut self, action: Action)
        ensures
            final(self)@ == old(self)@.after(action),
            final(self)@.valid(),
    {
        proof {
            use_type_invariant(&*self);
        }
        match self.value_cursor {
            // A variable is picked.
            None => match (action, self.variable_cursor) {
                (Action::Quit, _) => {
                    self.should_quit = true;
                },
                (Action::Up, Some(i)) => {
                    if i > 0 {
                        self.variable_cursor = Some(i - 1);
                    }
                },
                (Action::Down, Some(i)) => {
                    let count = self.sorted_variable_names.len();
                    if i + 1 < count {
                        self.variable_cursor = Some(i + 1);
                    }
                },
                (Action::Confirm, Some(_)) => {
                    self.value_cursor = Some(0);
                },
                _ => {},
            },
            // A value is picked, and the cursor is on the value `j`.
            Some(j) => match action {
                Action::Quit | Action::Confirm => {
                    self.should_quit = true;
                },
                Action::Cancel => {
                    self.value_cursor = None;
                },
                Action::Up => {
                    if j > 0 {
                        self.value_cursor = Some(j - 1);
                    }
                },
                Action::Down => {
                    let count = self.value_count();
                    if j + 1 < count {
                        self.value_cursor = Some(j + 1);
                    }
                },
                Action::Nothing => {},
            },
        }
    }

    /// The number of values of the selected variable; 0 while no variable is
    /// selected.
    fn value_count(&self) -> (count: usize)
        ensures
            count == match self@.state.selected_variable {
                Some(name) => self@.config[name].len(),
                None => 0,
            },
    {
        proof {
            use_type_invariant(self);
        }
        match self.selected_variable() {
            Some(name) => match self.config.get(name) {
                Some(var) => var.values.len(),
                None => 0,
            },
            None => 0,
        }
    }

    /// The command that assigns the chosen value to the selected variable;
    /// none while no value is chosen.
    pub fn command(&self) -> (command: Option<String>)
        ensures
            match command {
                Some(text) => self@.command() == Some(text@),
                None => self@.command() is None,
            },
    {
        proof {
            use_type_invariant(self);
        }
        match (self.selected_variable(), self.value_cursor) {
            (Some(name), Some(j)) => match self.config.get(name) {
                Some(var) => if j < var.values.len() {
                    Some(generate_powershell_command(name, var.values[j].value.as_str()))
                } else {
                    None
                },
                None => None,
            },
            _ => None,
        }
    }
}

/// `count` times the same action.
pub open spec fn repeated(action: Action, count: nat) -> Seq<Action> {
    Seq::new(count, |i: int| action)
}

/// No action leads out of the valid states: each cursor stays within its
/// list.
pub proof fn lemma_after_valid(app: AppView, action: Action)
    requires
        app.valid(),
    ensures
        app.after(action).valid(),
{
}

/// No run of actions leads out of the valid states, and none changes what
/// is selected from.
pub proof fn lemma_after_all_valid(app: AppView, actions: Seq<Action>)
    requires
        app.valid(),
    ensures
        app.after_all(actions).valid(),
        app.after_all(actions).names == app.names,
        app.after_all(actions).config == app.config,
        app.after_all(actions).messages == app.messages,
    decreases actions.len(),
{
    if actions.len() > 0 {
        lemma_after_all_valid(app, actions.drop_last());
        lemma_after_valid(app.after_all(actions.drop_last()), actions.last());
    }
}

/// With the cursor on the first entry of the list on show, moving up any
/// number of times changes nothing: the cursor does not wrap around.
pub proof fn lemma_up_at_first_stays(app: AppView, count: nat)
    requires
        app.valid(),
        match app.state.phase {
            SelectionPhase::Variable => app.state.variable_cursor == Some(0nat),
            SelectionPhase::Value => app.state.value_cursor == Some(0nat),
        },
    ensures
        app.after_all(repeated(Action::Up, count)) == app,
    decreases count,
{
    if count > 0 {
        lemma_up_at_first_stays(app, (count - 1) as nat);
        assert(repeated(Action::Up, count).drop_last() =~= repeated(
            Action::Up,
            (count - 1) as nat,
        ));
    }
}

/// With the cursor on the last entry of the list on show, moving down any
/// number of times changes nothing: the cursor does not wrap around.
pub proof fn lemma_down_at_last_stays(app: AppView, count: nat)
    requires
        app.valid(),
        match app.state.phase {
            SelectionPhase::Variable => app.state.variable_cursor == Some(
                (app.names.len() - 1) as nat,
            ),
            SelectionPhase::Value => app.state.selected_variable matches Some(name)
                && app.state.value_cursor == Some((app.config[name].len() - 1) as nat),
        },
    ensures
        app.after_all(repeated(Action::Down, count)) == app,
    decreases count,
{
    if count > 0 {
        lemma_down_at_last_stays(app, (count - 1) as nat);
        assert(repeated(Action::Down, count).drop_last() =~= repeated(
            Action::Down,
            (count - 1) as nat,
        ));
    }
}

/// Confirming a variable lists its values with the cursor on the first one,
/// whatever was picked before; the cursor of the variables stays.
pub proof fn lemma_confirm_variable(app: AppView)
    requires
        app.valid(),
        app.state.phase == SelectionPhase::Variable,
        app.names.len() > 0,
    ensures
        app.state.variable_cursor matches Some(i) && app.after(Action::Confirm).state
            == (SelectionState {
            phase: SelectionPhase::Value,
            selected_variable: Some(app.names[i as int]),
            value_cursor: Some(0nat),
            ..app.state
        }),
{
}

/// Cancelling goes back to the variables and forgets the choice; the cursor
/// of the variables stays where it was.
pub proof fn lemma_cancel_value(app: AppView)
    requires
        app.valid(),
        app.state.phase == SelectionPhase::Value,
    ensures
        app.after(Action::Cancel).state == (SelectionState {
            phase: SelectionPhase::Variable,
            selected_variable: None,
            value_cursor: None,
            ..app.state
        }),
{
}

/// While the values of a variable are listed, nothing moves the cursor of
/// the variables: after any run of actions without a cancel, the same
/// variable is selected, and a cancel then comes back to the cursor from
/// which the variable was confirmed.
pub proof fn lemma_round_trip_keeps_variable_cursor(app: AppView, actions: Seq<Action>)
    requires
        app.valid(),
        app.state.phase == SelectionPhase::Value,
        forall|i: int| 0 <= i < actions.len() ==> actions[i] != Action::Cancel,
    ensures
        app.after_all(actions).state.phase == SelectionPhase::Value,
        app.after_all(actions).state.variable_cursor == app.state.variable_cursor,
        app.after_all(actions).state.selected_variable == app.state.selected_variable,
        app.after_all(actions).after(Action::Cancel).state.phase == SelectionPhase::Variable,
        app.after_all(actions).after(Action::Cancel).state.variable_cursor
            == app.state.variable_cursor,
    decreases actions.len(),
{
    if actions.len() > 0 {
        lemma_round_trip_keeps_variable_cursor(app, actions.drop_last());
    }
}

/// Confirming a variable and cancelling at once leaves the application as
/// it was.
pub proof fn lemma_confirm_then_cancel(app: AppView)
    requires
        app.valid(),
        app.state.phase == SelectionPhase::Variable,
    ensures
        app.after(Action::Confirm).after(Action::Cancel) == app,
{
}

/// Confirming a value ends the selection and keeps the choice: the selected
/// variable and the cursor on its value.
pub proof fn lemma_confirm_value(app: AppView)
    requires
        app.state.phase == SelectionPhase::Value,
    ensures
        app.after(Action::Confirm).state == (SelectionState { quit: true, ..app.state }),
{
}

/// Quitting ends the selection, in either phase, and changes nothing else.
pub proof fn lemma_quit(app: AppView)
    ensures
        app.after(Action::Quit).state == (SelectionState { quit: true, ..app.state }),
{
}

/// Once the selection has ended, no run of actions opens it again.
pub proof fn lemma_quit_is_final(app: AppView, actions: Seq<Action>)
    requires
        app.state.quit,
    ensures
        app.after_all(actions).state.quit,
    decreases actions.len(),
{
    if actions.len() > 0 {
        lemma_quit_is_final(app, actions.drop_last());
    }
}

/// The phase changes in two ways only: confirming a variable lists its
/// values, and cancelling goes back to the variables.
pub proof fn lemma_phase_changes(app: AppView, action: Action)
    requires
        app.after(action).state.phase != app.state.phase,
    ensures
        match app.state.phase {
            SelectionPhase::Variable => action == Action::Confirm,
            SelectionPhase::Value => action == Action::Cancel,
        },
{
}

/// While a variable is picked there is no command, nor after quitting from
/// there.
pub proof fn lemma_no_command_without_choice(app: AppView)
    requires
        app.valid(),
        app.state.phase == SelectionPhase::Variable,
    ensures
        app.command() is None,
        app.after(Action::Quit).command() is None,
{
}

/// Once a value is confirmed, the command assigns the value under the
/// cursor to the selected variable.
pub proof fn lemma_command_after_confirm(app: AppView)
    requires
        app.valid(),
        app.state.phase == SelectionPhase::Value,
    ensures
        app.state.selected_variable matches Some(name) && app.state.value_cursor matches Some(j)
            && app.after(Action::Confirm).command() == Some(
            command_text(name, app.config[name][j as int].value),
        ),
{
}

/// An ascending list is fixed by what it holds: two ascending lists of the
/// same names are the same list.
pub proof fn lemma_sorted_unique(first: Seq<Seq<char>>, second: Seq<Seq<char>>)
    requires
        sorted(first),
        sorted(second),
        first.to_set() == second.to_set(),
    ensures
        first == second,
    decreases first.len(),
{
    if first.len() == 0 {
        if second.len() > 0 {
            assert(first.to_set().contains(second[0]));
        }
    } else if second.len() > 0 {
        // Each list holds the head of the other, so neither head comes
        // before the other: they are the same name.
        assert(second.to_set().contains(first[0]));
        let k = choose|k: int| 0 <= k < second.len() && second[k] == first[0];
        assert(first.to_set().contains(second[0]));
        let m = choose|m: int| 0 <= m < first.len() && first[m] == second[0];
        if k > 0 && m > 0 {
            lemma_precedes_transitive(first[0], first[m], second[k]);
        }
        lemma_precedes_irreflexive(first[0]);
        lemma_precedes_irreflexive(second[0]);
        // The tails hold the same names too, since the head occurs once.
        let first_rest = first.drop_first();
        let second_rest = second.drop_first();
        assert forall|x: Seq<char>|
            first_rest.to_set().contains(x) <==> second_rest.to_set().contains(x) by {
            lemma_precedes_irreflexive(x);
            if first_rest.contains(x) {
                assert(second.to_set().contains(x));
                let j = choose|j: int| 0 <= j < second.len() && second[j] == x;
                assert(second_rest[j - 1] == x);
            }
            if second_rest.contains(x) {
                assert(first.to_set().contains(x));
                let j = choose|j: int| 0 <= j < first.len() && first[j] == x;
                assert(first_rest[j - 1] == x);
            }
        }
        assert(first_rest.to_set() =~= second_rest.to_set());
        assert(sorted(first_rest));
        assert(sorted(second_rest));
        lemma_sorted_unique(first_rest, second_rest);
        assert(first =~= seq![first[0]] + first_rest);
    }
}

} // verus!
