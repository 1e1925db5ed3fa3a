//! What the tracker shows, and what a key does to it.

use vstd::prelude::*;

verus! {

/// What the tracker is showing. Exactly one of the four holds at a time.
#[derive(Debug, PartialEq, Eq)]
pub enum State {
    /// The list of projects: the state in which the tracker starts.
    Projects,
    /// The help, laid over the list.
    Help,
    /// The prompt for a new project's name, with what was typed so far.
    CreateProject { input: String },
    /// The question whether the selected project is to be deleted.
    DeleteProject,
}

/// A state as plain mathematical values.
pub ghost enum StateView {
    Projects,
    Help,
    CreateProject { input: Seq<char> },
    DeleteProject,
}

impl View for State {
    type V = StateView;

    open spec fn view(&self) -> StateView {
        match self {
            State::Projects => StateView::Projects,
            State::Help => StateView::Help,
            State::CreateProject { input } => StateView::CreateProject { input: input@ },
            State::DeleteProject => StateView::DeleteProject,
        }
    }
}

/// What can happen to the state.
#[derive(Clone, Copy, Debug, PartialEq, Eq, Structural)]
pub enum Transitions {
    CreateNew,
    Delete,
    Escape,
    ShowHelp,
    InputCharacter(char),
    Backspace,
}

/// The state that follows `state` when `transition` happens. From the list
/// one gets to each of the other three; escape leads back to the list; the
/// prompt takes characters and gives its last one up again, and an empty
/// prompt stays empty. Every other pair leaves the state as it is.
pub open spec fn next_state(state: StateView, transition: Transitions) -> StateView {
    match (state, transition) {
        (StateView::Projects, Transitions::CreateNew) => StateView::CreateProject {
            input: Seq::empty(),
        },
        (StateView::Projects, Transitions::Delete) => StateView::DeleteProject,
        (StateView::Projects, Transitions::ShowHelp) => StateView::Help,
        (StateView::Help, Transitions::Escape) => StateView::Projects,
        (
            StateView::CreateProject { input },
            Transitions::InputCharacter(character),
        ) => StateView::CreateProject { input: input.push(character) },
        (StateView::CreateProject { input }, Transitions::Backspace) => StateView::CreateProject {
            input: if input.len() == 0 {
                input
            } else {
                input.drop_last()
            },
        },
        (StateView::CreateProject { input }, Transitions::Escape) => StateView::Projects,
        (StateView::DeleteProject, Transitions::Escape) => StateView::Projects,
        (_, _) => state,
    }
}

/// A key as the terminal reports it.
#[derive(Clone, Copy, Debug, PartialEq, Eq, Structural)]
pub enum Key {
    Char(char),
    Enter,
    Esc,
    Backspace,
    Up,
    Down,
    /// Any key that the tracker has no use for.
    Other,
}

/// What is to be done outside the state after a key.
#[derive(Debug, PartialEq, Eq)]
pub enum Command {
    /// Nothing.
    Nothing,
    /// Leave the tracker.
    Quit,
    /// Move the selection one project down.
    SelectNext,
    /// Move the selection one project up.
    SelectPrevious,
    /// Start or stop the timer of the selected project.
    ToggleTimer,
    /// Write the report.
    GenerateReport,
    /// Add a project of this name to the store.
    CreateProject { name: String },
    /// Remove the selected project from the store.
    DeleteProject,
}

/// A command as plain mathematical values.
pub ghost enum CommandView {
    Nothing,
    Quit,
    SelectNext,
    SelectPrevious,
    ToggleTimer,
    GenerateReport,
    CreateProject { name: Seq<char> },
    DeleteProject,
}

impl View for Command {
    type V = CommandView;

    open spec fn view(&self) -> CommandView {
        match self {
            Command::Nothing => CommandView::Nothing,
            Command::Quit => CommandView::Quit,
            Command::SelectNext => CommandView::SelectNext,
            Command::SelectPrevious => CommandView::SelectPrevious,
            Command::ToggleTimer => CommandView::ToggleTimer,
            Command::GenerateReport => CommandView::GenerateReport,
            Command::CreateProject { name } => CommandView::CreateProject { name: name@ },
            Command::DeleteProject => CommandView::DeleteProject,
        }
    }
}

/// What `key` does to the state when it is pressed in `state`, if anything.
pub open spec fn key_transition(state: StateView, key: Key) -> Option<Transitions> {
    match state {
        StateView::Projects => match key {
            Key::Char('a') => Some(Transitions::CreateNew),
            Key::Char('d') => Some(Transitions::Delete),
            Key::Char('?') => Some(Transitions::ShowHelp),
            Key::Esc => Some(Transitions::Escape),
            _ => None,
        },
        StateView::CreateProject { input } => match key {
            Key::Enter => Some(Transitions::Escape),
            Key::Char(c) => Some(Transitions::InputCharacter(c)),
            Key::Backspace => Some(Transitions::Backspace),
            Key::Esc => Some(Transitions::Escape),
            _ => None,
        },
        StateView::DeleteProject => match key {
            Key::Esc | Key::Char('n') | Key::Char('q') | Key::Char('y') => Some(
                Transitions::Escape,
            ),
            _ => None,
        },
        StateView::Help => match key {
            Key::Esc | Key::Char('?') | Key::Char('q') => Some(Transitions::Escape),
            _ => None,
        },
    }
}

/// What `key` asks for outside the state when it is pressed in `state`.
pub open spec fn key_command(state: StateView, key: Key) -> CommandView {
    match state {
        StateView::Projects => match key {
            Key::Char('q') => CommandView::Quit,
            Key::Down | Key::Char('j') => CommandView::SelectNext,
            Key::Up | Key::Char('k') => CommandView::SelectPrevious,
            Key::Char(' ') | Key::Enter => CommandView::ToggleTimer,
            Key::Char('r') => CommandView::GenerateReport,
            _ => CommandView::Nothing,
        },
        StateView::CreateProject { input } => match key {
            Key::Enter => CommandView::CreateProject { name: input },
            _ => CommandView::Nothing,
        },
        StateView::DeleteProject => match key {
            Key::Char('y') => CommandView::DeleteProject,
            _ => CommandView::Nothing,
        },
        StateView::Help => CommandView::Nothing,
    }
}

/// The state that is left after `key` was pressed in `state`.
pub open spec fn state_after_key(state: StateView, key: Key) -> StateView {
    match key_transition(state, key) {
        Some(transition) => next_state(state, transition),
        None => state,
    }
}

/// The selection after a move down in a list of `count` projects: the next
/// project, and the first after the last. In an empty list it stays.
pub open spec fn selection_below(selected: usize, count: usize) -> usize {
    if count == 0 {
        selected
    } else if selected >= count - 1 {
        0
    } else {
        (selected + 1) as usize
    }
}

/// The selection after a move up in a list of `count` projects: the project
/// before, and the last before the first, as from any place behind the last.
/// In an empty list it stays.
pub open spec fn selection_above(selected: usize, count: usize) -> usize {
    if count == 0 {
        selected
    } else if selected == 0 || selected >= count {
        (count - 1) as usize
    } else {
        (selected - 1) as usize
    }
}

/// Moves the selection one project down, from the last to the first.
pub fn select_next(selected: usize, count: usize) -> (r: usize)
    ensures
        r == selection_below(selected, count),
        count > 0 ==> r < count,
        count == 0 ==> r == selected,
        count > 0 && selected == count - 1 ==> r == 0,
{
    if count == 0 {
        selected
    } else if selected >= count - 1 {
        0
    } else {
        selected + 1
    }
}

/// Moves the selection one project up, from the first to the last.
pub fn select_previous(selected: usize, count: usize) -> (r: usize)
    ensures
        r == selection_above(selected, count),
        count > 0 ==> r < count,
        count == 0 ==> r == selected,
        count > 0 && selected == 0 ==> r == count - 1,
{
    if count == 0 {
        selected
    } else if selected == 0 || selected >= count {
        count - 1
    } else {
        selected - 1
    }
}

/// Within a list, a move down and then up, or up and then down, leads back
/// to where it began.
pub proof fn lemma_selection_returns(selected: usize, count: usize)
    requires
        selected < count,
    ensures
        selection_above(selection_below(selected, count), count) == selected,
        selection_below(selection_above(selected, count), count) == selected,
{
}

/// Finds what `key` does to the state when it is pressed in `state`.
pub fn transition_for(state: &State, key: Key) -> (r: Option<Transitions>)
    ensures
        r == key_transition(state@, key),
{
    match state {
        State::Projects => match key {
            Key::Char('a') => Some(Transitions::CreateNew),
            Key::Char('d') => Some(Transitions::Delete),
            Key::Char('?') => Some(Transitions::ShowHelp),
            Key::Esc => Some(Transitions::Escape),
            _ => None,
        },
        State::CreateProject { input } => match key {
            Key::Enter => Some(Transitions::Escape),
            Key::Char(c) => Some(Transitions::InputCharacter(c)),
            Key::Backspace => Some(Transitions::Backspace),
            Key::Esc => Some(Transitions::Escape),
            _ => None,
        },
        State::DeleteProject => match key {
            Key::Esc | Key::Char('n') | Key::Char('q') | Key::Char('y') => Some(
                Transitions::Escape,
            ),
            _ => None,
        },
        State::Help => match key {
            Key::Esc | Key::Char('?') | Key::Char('q') => Some(Transitions::Escape),
            _ => None,
        },
    }
}

/// Finds what `key` asks for outside the state when it is pressed in `state`.
pub fn command_for(state: &State, key: Key) -> (r: Command)
    ensures
        r@ == key_command(state@, key),
{
    match state {
        State::Projects => match key {
            Key::Char('q') => Command::Quit,
            Key::Down | Key::Char('j') => Command::SelectNext,
            Key::Up | Key::Char('k') => Command::SelectPrevious,
            Key::Char(' ') | Key::Enter => Command::ToggleTimer,
            Key::Char('r') => Command::GenerateReport,
            _ => Command::Nothing,
        },
        State::CreateProject { input } => match key {
            Key::Enter => Command::CreateProject { name: input.clone() },
            _ => Command::Nothing,
        },
        State::DeleteProject => match key {
            Key::Char('y') => Command::DeleteProject,
            _ => Command::Nothing,
        },
        State::Help => Command::Nothing,
    }
}

/// The interactive surface of the tracker.
#[derive(Debug, PartialEq, Eq)]
pub struct App {
    pub state: State,
}

impl App {
    /// The tracker as it starts: showing the list of projects.
    pub fn new() -> (r: App)
        ensures
            r.state@ == StateView::Projects,
    {
        App { state: State::Projects }
    }

    /// Lets `transition` happen to the state.
    pub fn transition(&mut self, transition: Transitions)
        ensures
            final(self).state@ == next_state(old(self).state@, transition),
    {
        match transition {
            Transitions::CreateNew => {
                if let State::Projects = self.state {
                    self.state = State::CreateProject { input: String::new() };
                }
            },
            Transitions::Delete => {
                if let State::Projects = self.state {
                    self.state = State::DeleteProject;
                }
            },
            Transitions::ShowHelp => {
                if let State::Projects = self.state {
                    self.state = State::Help;
                }
            },
            Transitions::Escape => {
                match self.state {
                    State::Projects => {},
                    _ => {
                        self.state = State::Projects;
                    },
                }
            },
            Transitions::InputCharacter(character) => {
                if let State::CreateProject { input } = &mut self.state {
                    input.push(character);
                }
            },
            Transitions::Backspace => {
                if let State::CreateProject { input } = &mut self.state {
                    let _ = input.pop();
                }
            },
        }
    }

    /// Takes a key: lets the state follow it, and says what is to be done
    /// outside the state.
    pub fn handle_key(&mut self, key: Key) -> (r: Command)
        ensures
            final(self).state@ == state_after_key(old(self).state@, key),
            r@ == key_command(old(self).state@, key),
    {
        let command = command_for(&self.state, key);
        let transition = transition_for(&self.state, key);
        if let Some(t) = transition {
            self.transition(t);
        }
        command
    }
}

} // verus!
