//! The menu and the events of the game: which button is chosen, and what
//! follows when it is pressed.

use vstd::prelude::*;

verus! {

/// What can happen in the game, as far as the rules are concerned.
#[derive(Clone, Copy, Debug, PartialEq, Eq, Structural)]
pub enum GameEvent {
    ChangeWidth(i16),
    ChangeHeight(i16),
    LoadRelativeLevel(isize),
    MovePlayer(i16, i16),
    ToggleEditor,
    Exit,
}

/// The buttons of the menu, from top to bottom.
#[derive(Clone, Copy, Debug, PartialEq, Eq, Structural)]
pub enum MenuButton {
    Start,
    Editor,
    OtherGames,
    Exit,
    /// Stands behind the last button; the menu never shows it.
    __Last,
}

/// The number of buttons of the menu.
pub const NUM_BUTTONS: isize = 4;

impl MenuButton {
    /// The place of the button in the menu, counted from 0.
    pub open spec fn spec_index(self) -> isize {
        match self {
            MenuButton::Start => 0isize,
            MenuButton::Editor => 1isize,
            MenuButton::OtherGames => 2isize,
            MenuButton::Exit => 3isize,
            MenuButton::__Last => 4isize,
        }
    }

    /// The place of the button in the menu, counted from 0.
    #[verifier::when_used_as_spec(spec_index)]
    pub fn index(self) -> (i: isize)
        ensures
            i == self.spec_index(),
    {
        match self {
            Self::Start => 0,
            Self::Editor => 1,
            Self::OtherGames => 2,
            Self::Exit => 3,
            Self::__Last => 4,
        }
    }

    /// The button at place `index`.
    pub fn from_index(index: isize) -> (button: Self)
        requires
            0 <= index < NUM_BUTTONS,
        ensures
            button.spec_index() == index,
    {
        match index {
            0 => Self::Start,
            1 => Self::Editor,
            2 => Self::OtherGames,
            _ => Self::Exit,
        }
    }
}

/// Whether the menu is shown, and which of its buttons is chosen.
#[derive(Clone, Copy, Debug, PartialEq, Eq, Structural)]
pub struct MenuState {
    pub is_open: bool,
    pub selected_button: MenuButton,
}

impl Default for MenuState {
    fn default() -> (state: Self)
        ensures
            state == (MenuState { is_open: true, selected_button: MenuButton::Start }),
    {
        Self { is_open: true, selected_button: MenuButton::Start }
    }
}

/// What pressing `button` sends into the game, in order.
pub open spec fn press_events(button: MenuButton) -> Seq<GameEvent> {
    match button {
        MenuButton::Start => seq![GameEvent::LoadRelativeLevel(0)],
        MenuButton::Editor => seq![GameEvent::LoadRelativeLevel(0), GameEvent::ToggleEditor],
        MenuButton::OtherGames => Seq::empty(),
        MenuButton::Exit => seq![GameEvent::Exit],
        MenuButton::__Last => Seq::empty(),
    }
}

/// What the game does when it is told to exit.
#[derive(Clone, Copy, Debug, PartialEq, Eq, Structural)]
pub struct ExitAction {
    /// The editor is open and has to close.
    pub close_editor: bool,
    /// The menu was open already: the program ends.
    pub quit: bool,
}

impl MenuState {
    /// Moves the choice by `delta` buttons, going round at the ends. The
    /// place of the chosen button, the number of buttons and `delta` must
    /// add up to a number that is not negative and that the machine can hold.
    pub fn move_selected_button(&mut self, delta: isize)
        requires
            0 <= old(self).selected_button.spec_index() + NUM_BUTTONS + delta <= isize::MAX,
        ensures
            final(self).is_open == old(self).is_open,
            final(self).selected_button.spec_index() == (old(self).selected_button.spec_index()
                + NUM_BUTTONS + delta) % (NUM_BUTTONS as int),
    {
        let index: isize = (self.selected_button.index() + NUM_BUTTONS + delta) % NUM_BUTTONS;
        self.selected_button = MenuButton::from_index(index);
    }

    /// Presses the chosen button: starting the game or the editor closes the
    /// menu. Returns what the press sends into the game.
    pub fn handle_button_press(&mut self) -> (events: Vec<GameEvent>)
        ensures
            events@ == press_events(old(self).selected_button),
            final(self).selected_button == old(self).selected_button,
            final(self).is_open == (old(self).is_open && old(self).selected_button
                != MenuButton::Start && old(self).selected_button != MenuButton::Editor),
    {
        let mut events: Vec<GameEvent> = Vec::new();
        match self.selected_button {
            MenuButton::Start => {
                events.push(GameEvent::LoadRelativeLevel(0));
                self.is_open = false;
            },
            MenuButton::Editor => {
                events.push(GameEvent::LoadRelativeLevel(0));
                events.push(GameEvent::ToggleEditor);
                self.is_open = false;
            },
            MenuButton::OtherGames => {},
            MenuButton::Exit => {
                events.push(GameEvent::Exit);
            },
            MenuButton::__Last => {},
        }
        assert(events@ =~= press_events(old(self).selected_button));
        events
    }

    /// The game is told to exit: an open editor closes; the program ends if
    /// the menu is open, and the menu opens if it is not.
    pub fn on_exit(&mut self, editor_open: bool) -> (action: ExitAction)
        ensures
            action.close_editor == editor_open,
            action.quit == old(self).is_open,
            final(self).is_open,
            final(self).selected_button == old(self).selected_button,
    {
        let quit: bool = self.is_open;
        self.is_open = true;
        ExitAction { close_editor: editor_open, quit }
    }
}

} // verus!
