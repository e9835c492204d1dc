//! The interactive menu: which resolution strategy is selected, whether the
//! confirmation pop-up is open, and what a key press does to them.
use vstd::prelude::*;
use vstd::string::*;

verus! {

/// The number of resolution strategies the menu offers.
pub const OPTION_COUNT: usize = 4;

/// What the side panel shows: the welcome text, or the number of the
/// selected strategy.
#[derive(Clone, Copy, PartialEq, Eq, Structural)]
pub enum Panel {
    Welcome,
    Index(usize),
}

impl Panel {
    /// The strategy the panel names, if it shows a number.
    pub open spec fn spec_choice(self) -> Option<usize> {
        match self {
            Panel::Welcome => None,
            Panel::Index(i) => Some(i),
        }
    }

    /// The strategy the panel names, if it shows a number.
    pub fn choice(&self) -> (r: Option<usize>)
        ensures
            r == self.spec_choice(),
    {
        match self {
            Panel::Welcome => None,
            Panel::Index(i) => Some(*i),
        }
    }
}

/// The resolution strategies.
#[derive(Clone, Copy, PartialEq, Eq, Structural)]
pub enum ExecTypes {
    AcceptLocal,
    AcceptForeign,
    Combination,
    TreeMerge,
    Idle,
}

/// The question the pop-up asks.
#[derive(Clone, Copy, PartialEq, Eq, Structural)]
pub enum Prompt {
    /// Nothing to ask yet.
    Empty,
    /// "Are you sure you want to execute", answered with y or n.
    Confirm,
    /// Whether the parent (ancestor) commit takes part in a tree merge.
    ParentInterference,
}

/// The strategy that the pop-up is about to run, and what it asks.
#[derive(Clone, Copy, PartialEq, Eq, Structural)]
pub struct ExecOption {
    pub prompt: Prompt,
    pub is_tree: bool,
    pub res_method: ExecTypes,
}

/// The git operation that running a strategy performs.
#[derive(Clone, Copy, PartialEq, Eq, Structural)]
pub enum GitAction {
    /// Keep one side's version of the conflicted files: ours (the head)
    /// when `version` holds, theirs otherwise.
    Discard { version: bool },
    /// Strip the conflict markers and keep both sides.
    Combine,
    /// Resolve the conflict on the trees.
    TreeMerge { version: bool, parent_interference: bool },
    /// Nothing to run.
    Nothing,
}

/// What the strategy number `choice` sets in the pop-up, with the pop-up
/// as it was before: strategies 0, 1 and 2 ask for confirmation, strategy
/// 3 asks about the parent commit and marks the pop-up as a tree merge for
/// good; any other number changes nothing.
pub open spec fn exec_after_run(e: ExecOption, choice: Option<usize>) -> ExecOption {
    match choice {
        Some(0) => ExecOption { res_method: ExecTypes::AcceptLocal, prompt: Prompt::Confirm, ..e },
        Some(1) => ExecOption {
            res_method: ExecTypes::AcceptForeign,
            prompt: Prompt::Confirm,
            ..e
        },
        Some(2) => ExecOption { res_method: ExecTypes::Combination, prompt: Prompt::Confirm, ..e },
        Some(3) => ExecOption {
            res_method: ExecTypes::TreeMerge,
            prompt: Prompt::ParentInterference,
            is_tree: true,
        },
        _ => e,
    }
}

/// The strategy number names one of the strategies.
pub open spec fn is_strategy(choice: Option<usize>) -> bool {
    choice matches Some(k) && k < OPTION_COUNT
}

/// A flag that the user was asked for, and set when it was not asked.
pub open spec fn flag_or_set(flag: Option<bool>) -> bool {
    match flag {
        Some(b) => b,
        None => true,
    }
}

/// The git operation that a strategy performs: the head's version for
/// `AcceptLocal`, the other branch's for `AcceptForeign`, both for
/// `Combination`, and for `TreeMerge` a tree merge with the side
/// (`version`: ours when it holds) and the parent interference that were
/// given, each of them set when it was not given.
pub open spec fn action_of(
    method: ExecTypes,
    parent_interference: Option<bool>,
    version: Option<bool>,
) -> GitAction {
    match method {
        ExecTypes::AcceptLocal => GitAction::Discard { version: true },
        ExecTypes::AcceptForeign => GitAction::Discard { version: false },
        ExecTypes::Combination => GitAction::Combine,
        ExecTypes::TreeMerge => GitAction::TreeMerge {
            version: flag_or_set(version),
            parent_interference: flag_or_set(parent_interference),
        },
        ExecTypes::Idle => GitAction::Nothing,
    }
}

impl ExecOption {
    /// A pop-up that asks nothing and runs nothing.
    pub fn new() -> (r: Self)
        ensures
            r == (ExecOption { prompt: Prompt::Empty, is_tree: false, res_method: ExecTypes::Idle }),
    {
        ExecOption { prompt: Prompt::Empty, is_tree: false, res_method: ExecTypes::Idle }
    }

    /// Sets the pop-up for the strategy number `choice` and hands back a
    /// copy of it; `None`, with the pop-up unchanged, when `choice` names no
    /// strategy.
    pub fn run(&mut self, choice: Option<usize>) -> (r: Option<ExecOption>)
        ensures
            *final(self) == exec_after_run(*old(self), choice),
            r == (if is_strategy(choice) { Some(*final(self)) } else { None }),
            final(self).is_tree == (old(self).is_tree || choice == Some(3usize)),
            choice == Some(0usize) ==> final(self).res_method == ExecTypes::AcceptLocal
                && final(self).prompt == Prompt::Confirm && r == Some(*final(self)),
            choice == Some(1usize) ==> final(self).res_method == ExecTypes::AcceptForeign
                && final(self).prompt == Prompt::Confirm && r == Some(*final(self)),
            choice == Some(2usize) ==> final(self).res_method == ExecTypes::Combination
                && final(self).prompt == Prompt::Confirm && r == Some(*final(self)),
            choice == Some(3usize) ==> final(self).res_method == ExecTypes::TreeMerge
                && final(self).prompt == Prompt::ParentInterference && r == Some(*final(self)),
            (choice is None || choice->0 >= OPTION_COUNT) ==> (*final(self) == *old(self) && (r
                is None)),
    {
        match choice {
            Some(0) => {
                self.res_method = ExecTypes::AcceptLocal;
                self.return_msg();
                Some(*self)
            },
            Some(1) => {
                self.res_method = ExecTypes::AcceptForeign;
                self.return_msg();
                Some(*self)
            },
            Some(2) => {
                self.res_method = ExecTypes::Combination;
                self.return_msg();
                Some(*self)
            },
            Some(3) => {
                self.res_method = ExecTypes::TreeMerge;
                self.tree_msg();
                Some(*self)
            },
            _ => None,
        }
    }

    /// Asks for confirmation, and hands back a copy of the pop-up.
    pub fn return_msg(&mut self) -> (r: Self)
        ensures
            *final(self) == (ExecOption { prompt: Prompt::Confirm, ..*old(self) }),
            r == *final(self),
    {
        self.prompt = Prompt::Confirm;
        *self
    }

    /// Asks about the parent commit and marks the pop-up as a tree merge,
    /// and hands back a copy of the pop-up.
    pub fn tree_msg(&mut self) -> (r: Self)
        ensures
            *final(self) == (ExecOption {
                prompt: Prompt::ParentInterference,
                is_tree: true,
                ..*old(self)
            }),
            r == *final(self),
    {
        self.prompt = Prompt::ParentInterference;
        self.is_tree = true;
        *self
    }

    /// The git operation that running the selected strategy performs. A
    /// tree merge takes the side (`version`) and the parent interference it
    /// is given; a flag that is not given counts as set.
    pub fn exec_action(&self, parent_interference: Option<bool>, version: Option<bool>) -> (r: GitAction)
        ensures
            r == action_of(self.res_method, parent_interference, version),
            self.res_method == ExecTypes::AcceptLocal ==> r == (GitAction::Discard { version: true }),
            self.res_method == ExecTypes::AcceptForeign ==> r == (GitAction::Discard {
                version: false,
            }),
            self.res_method == ExecTypes::Combination ==> r == GitAction::Combine,
            self.res_method == ExecTypes::Idle ==> r == GitAction::Nothing,
            self.res_method == ExecTypes::TreeMerge ==> r == (GitAction::TreeMerge {
                version: (if version is Some { version->0 } else { true }),
                parent_interference: (if parent_interference is Some {
                    parent_interference->0
                } else {
                    true
                }),
            }),
    {
        match self.res_method {
            ExecTypes::AcceptLocal => GitAction::Discard { version: true },
            ExecTypes::AcceptForeign => GitAction::Discard { version: false },
            ExecTypes::Combination => GitAction::Combine,
            ExecTypes::TreeMerge => GitAction::TreeMerge {
                version: match version {
                    Some(b) => b,
                    None => true,
                },
                parent_interference: match parent_interference {
                    Some(b) => b,
                    None => true,
                },
            },
            ExecTypes::Idle => GitAction::Nothing,
        }
    }
}

impl Default for ExecOption {
    fn default() -> (r: Self)
        ensures
            r == (ExecOption { prompt: Prompt::Empty, is_tree: false, res_method: ExecTypes::Idle }),
    {
        ExecOption::new()
    }
}

/// The description that goes with a strategy number.
#[derive(Clone, Copy, PartialEq, Eq, Structural)]
pub enum DescriptionKind {
    Local,
    Foreign,
    Combination,
    Tree,
    Empty,
}

/// The strategy number that a label names: the labels `0`, `1`, `2` and `3`.
pub open spec fn label_choice(label: Seq<char>) -> Option<usize> {
    if label == seq!['0'] {
        Some(0)
    } else if label == seq!['1'] {
        Some(1)
    } else if label == seq!['2'] {
        Some(2)
    } else if label == seq!['3'] {
        Some(3)
    } else {
        None
    }
}

/// The strategy number that a label names, if it names one.
pub fn label_index(label: &str) -> (r: Option<usize>)
    ensures
        r == label_choice(label@),
{
    if label.unicode_len() != 1 {
        return None;
    }
    let c = label.get_char(0);
    assert(label@ =~= seq![c]);
    if c == '0' {
        Some(0)
    } else if c == '1' {
        Some(1)
    } else if c == '2' {
        Some(2)
    } else if c == '3' {
        Some(3)
    } else {
        None
    }
}

/// The description that goes with a strategy number.
pub open spec fn description_of(choice: Option<usize>) -> DescriptionKind {
    match choice {
        Some(0) => DescriptionKind::Local,
        Some(1) => DescriptionKind::Foreign,
        Some(2) => DescriptionKind::Combination,
        Some(3) => DescriptionKind::Tree,
        _ => DescriptionKind::Empty,
    }
}

/// The description that goes with the strategy a label names, `Empty` for
/// any other label.
pub fn description_kind(label: &str) -> (r: DescriptionKind)
    ensures
        r == description_of(label_choice(label@)),
{
    match label_index(label) {
        Some(0) => DescriptionKind::Local,
        Some(1) => DescriptionKind::Foreign,
        Some(2) => DescriptionKind::Combination,
        Some(3) => DescriptionKind::Tree,
        _ => DescriptionKind::Empty,
    }
}

/// A key press, as far as the menu tells keys apart.
#[derive(Clone, Copy, PartialEq, Eq, Structural)]
pub enum KeyInput {
    Char(char),
    Esc,
    Up,
    Down,
    Enter,
    Other,
}

/// What a key press asks of the menu.
#[derive(Clone, Copy, PartialEq, Eq, Structural)]
pub enum Command {
    Leave,
    Prev,
    Next,
    Update,
    ExitPopUp,
    UpdatePopUp,
    NoOp,
}

/// `q` or Esc leaves, `k` or Up moves up, `j` or Down moves down, Enter or
/// `x` opens the pop-up, `n` closes it, `y` runs the strategy; other keys
/// do nothing.
pub open spec fn command_of(key: KeyInput) -> Command {
    match key {
        KeyInput::Char('q') | KeyInput::Esc => Command::Leave,
        KeyInput::Char('k') | KeyInput::Up => Command::Prev,
        KeyInput::Char('j') | KeyInput::Down => Command::Next,
        KeyInput::Enter | KeyInput::Char('x') => Command::Update,
        KeyInput::Char('n') => Command::ExitPopUp,
        KeyInput::Char('y') => Command::UpdatePopUp,
        _ => Command::NoOp,
    }
}

/// What a key press asks of the menu.
pub fn command_for_key(key: KeyInput) -> (r: Command)
    ensures
        r == command_of(key),
{
    match key {
        KeyInput::Char('q') | KeyInput::Esc => Command::Leave,
        KeyInput::Char('k') | KeyInput::Up => Command::Prev,
        KeyInput::Char('j') | KeyInput::Down => Command::Next,
        KeyInput::Enter | KeyInput::Char('x') => Command::Update,
        KeyInput::Char('n') => Command::ExitPopUp,
        KeyInput::Char('y') => Command::UpdatePopUp,
        _ => Command::NoOp,
    }
}

/// What answering yes in the pop-up leads to.
#[derive(Clone, Copy, PartialEq, Eq, Structural)]
pub enum PopUpAction {
    /// The pop-up is closed: nothing happens.
    NoAction,
    /// Run this git operation.
    Execute(GitAction),
    /// The tree merge cannot be run from the pop-up yet.
    Unimplemented,
}

/// The selection after moving down: the next strategy, from the last back
/// to the first, and the first when nothing was selected.
pub open spec fn next_selection(selected: Option<usize>) -> usize {
    match selected {
        Some(i) => if i >= OPTION_COUNT - 1 {
            0
        } else {
            (i + 1) as usize
        },
        None => 0,
    }
}

/// The selection after moving up: the previous strategy; from the first
/// strategy it moves to `OPTION_COUNT`, one past the last; the first when
/// nothing was selected.
pub open spec fn prev_selection(selected: Option<usize>) -> usize {
    match selected {
        Some(i) => if i == 0 {
            OPTION_COUNT
        } else {
            (i - 1) as usize
        },
        None => 0,
    }
}

/// The state of the menu.
#[derive(Clone, Copy, PartialEq, Eq, Structural)]
pub struct MenuState {
    pub selected: Option<usize>,
    pub panel: Panel,
    pub exit: bool,
    pub pop_up: bool,
    pub exec_opt: ExecOption,
}

/// `b` is `a` with at most its pop-up flag changed.
pub open spec fn same_but_pop_up(a: MenuState, b: MenuState) -> bool {
    a.selected == b.selected && a.panel == b.panel && a.exit == b.exit && a.exec_opt == b.exec_opt
}

/// `b` is `a` with at most its selection and panel changed.
pub open spec fn same_but_selection(a: MenuState, b: MenuState) -> bool {
    a.pop_up == b.pop_up && a.exit == b.exit && a.exec_opt == b.exec_opt
}

impl MenuState {
    /// The panel shows the number of the selected strategy, and the welcome
    /// text only while nothing is selected; the selection is at most
    /// `OPTION_COUNT`. Once drawn, a selection one past the last strategy
    /// shows the last one while the panel keeps its number.
    pub open spec fn wf(self) -> bool {
        match self.selected {
            None => self.panel == Panel::Welcome,
            Some(i) => i <= OPTION_COUNT && (self.panel == Panel::Index(i) || (i == OPTION_COUNT
                - 1 && self.panel == Panel::Index(OPTION_COUNT))),
        }
    }

    /// The state once the list is drawn: a selection past the last strategy
    /// becomes the last strategy; the panel is left as it is.
    pub open spec fn after_drawing(self) -> MenuState {
        match self.selected {
            Some(i) => if i >= OPTION_COUNT {
                MenuState { selected: Some((OPTION_COUNT - 1) as usize), ..self }
            } else {
                self
            },
            None => self,
        }
    }

    /// The state after a command.
    pub open spec fn after_command(self, cmd: Command) -> MenuState {
        match cmd {
            Command::Leave => if self.pop_up {
                MenuState { pop_up: false, ..self }
            } else {
                MenuState { exit: true, ..self }
            },
            Command::Prev => {
                let i = prev_selection(self.selected);
                MenuState { selected: Some(i), panel: Panel::Index(i), ..self }
            },
            Command::Next => {
                let i = next_selection(self.selected);
                MenuState { selected: Some(i), panel: Panel::Index(i), ..self }
            },
            Command::Update => MenuState { pop_up: true, ..self },
            Command::ExitPopUp => MenuState { pop_up: false, ..self },
            Command::UpdatePopUp => self,
            Command::NoOp => self,
        }
    }

    /// What answering yes does in this state.
    pub open spec fn pop_up_action(self) -> PopUpAction {
        if self.pop_up {
            if self.exec_opt.is_tree {
                PopUpAction::Unimplemented
            } else {
                PopUpAction::Execute(action_of(self.exec_opt.res_method, None, None))
            }
        } else {
            PopUpAction::NoAction
        }
    }

    /// What a command leads to beyond the change of state.
    pub open spec fn action_of_command(self, cmd: Command) -> PopUpAction {
        if cmd == Command::UpdatePopUp {
            self.pop_up_action()
        } else {
            PopUpAction::NoAction
        }
    }

    /// The menu as it starts: nothing selected, the welcome text, no
    /// pop-up, and a pop-up that would run nothing.
    pub fn new() -> (r: Self)
        ensures
            r == (MenuState {
                selected: None,
                panel: Panel::Welcome,
                exit: false,
                pop_up: false,
                exec_opt: ExecOption {
                    prompt: Prompt::Empty,
                    is_tree: false,
                    res_method: ExecTypes::Idle,
                },
            }),
            r.wf(),
    {
        MenuState {
            selected: None,
            panel: Panel::Welcome,
            exit: false,
            pop_up: false,
            exec_opt: ExecOption::new(),
        }
    }

    /// Moves the selection down.
    pub fn next(&mut self)
        ensures
            *final(self) == old(self).after_command(Command::Next),
            same_but_selection(*old(self), *final(self)),
            old(self).selected is None ==> final(self).selected == Some(0usize),
            old(self).selected is Some && old(self).selected->0 + 1 < OPTION_COUNT ==> final(self).selected == Some((old(self).selected->0 + 1) as usize),
            old(self).selected is Some && old(self).selected->0 + 1 >= OPTION_COUNT ==> final(self).selected == Some(0usize),
            final(self).selected matches Some(i) && final(self).panel == Panel::Index(i) && i
                < OPTION_COUNT,
    {
        let i = match self.selected {
            Some(index) => {
                if index >= OPTION_COUNT - 1 {
                    0
                } else {
                    index + 1
                }
            },
            None => 0,
        };
        self.panel = Panel::Index(i);
        self.selected = Some(i);
    }

    /// Moves the selection up.
    pub fn prev(&mut self)
        ensures
            *final(self) == old(self).after_command(Command::Prev),
            same_but_selection(*old(self), *final(self)),
            old(self).selected is None ==> final(self).selected == Some(0usize),
            old(self).selected == Some(0usize) ==> final(self).selected == Some(OPTION_COUNT),
            old(self).selected is Some && old(self).selected->0 > 0 ==> final(self).selected
                == Some((old(self).selected->0 - 1) as usize),
            final(self).selected matches Some(i) && final(self).panel == Panel::Index(i),
    {
        let i = match self.selected {
            Some(index) => {
                if index == 0 {
                    OPTION_COUNT
                } else {
                    index - 1
                }
            },
            None => 0,
        };
        self.panel = Panel::Index(i);
        self.selected = Some(i);
    }

    /// Closes the pop-up if it is open, and otherwise asks the menu to exit.
    pub fn leave(&mut self)
        ensures
            *final(self) == old(self).after_command(Command::Leave),
            old(self).pop_up ==> !final(self).pop_up && final(self).exit == old(self).exit,
            !old(self).pop_up ==> final(self).exit && !final(self).pop_up,
            final(self).selected == old(self).selected && final(self).panel == old(self).panel
                && final(self).exec_opt == old(self).exec_opt,
    {
        if self.pop_up {
            self.pop_up = false;
        } else {
            self.exit = true;
        }
    }

    /// Opens the pop-up.
    pub fn update(&mut self)
        ensures
            *final(self) == old(self).after_command(Command::Update),
            final(self).pop_up,
            same_but_pop_up(*old(self), *final(self)),
    {
        self.pop_up = true;
    }

    /// Closes the pop-up.
    pub fn exit_pop_up(&mut self)
        ensures
            *final(self) == old(self).after_command(Command::ExitPopUp),
            !final(self).pop_up,
            same_but_pop_up(*old(self), *final(self)),
    {
        if self.pop_up {
            self.pop_up = false;
        }
    }

    /// What answering yes does: nothing with the pop-up closed; with it
    /// open, the git operation of the selected strategy, unless the pop-up
    /// was ever set for a tree merge.
    pub fn update_pop_up(&self) -> (r: PopUpAction)
        ensures
            r == self.pop_up_action(),
            !self.pop_up ==> r == PopUpAction::NoAction,
            self.pop_up && self.exec_opt.is_tree ==> r == PopUpAction::Unimplemented,
            self.pop_up && !self.exec_opt.is_tree && self.exec_opt.res_method
                == ExecTypes::AcceptLocal ==> r == PopUpAction::Execute(
                GitAction::Discard { version: true },
            ),
            self.pop_up && !self.exec_opt.is_tree && self.exec_opt.res_method
                == ExecTypes::AcceptForeign ==> r == PopUpAction::Execute(
                GitAction::Discard { version: false },
            ),
            self.pop_up && !self.exec_opt.is_tree && self.exec_opt.res_method
                == ExecTypes::Combination ==> r == PopUpAction::Execute(GitAction::Combine),
            self.pop_up && !self.exec_opt.is_tree && self.exec_opt.res_method == ExecTypes::Idle
                ==> r == PopUpAction::Execute(GitAction::Nothing),
    {
        if self.pop_up {
            if self.exec_opt.is_tree {
                PopUpAction::Unimplemented
            } else {
                PopUpAction::Execute(self.exec_opt.exec_action(None, None))
            }
        } else {
            PopUpAction::NoAction
        }
    }

    /// Handles a key press: changes the state as the key's command asks and
    /// says what is to be run.
    pub fn handle_key(&mut self, key: KeyInput) -> (r: PopUpAction)
        ensures
            *final(self) == old(self).after_command(command_of(key)),
            r == old(self).action_of_command(command_of(key)),
            key != KeyInput::Char('y') ==> r == PopUpAction::NoAction,
            key == KeyInput::Char('n') ==> !final(self).pop_up && same_but_pop_up(
                *old(self),
                *final(self),
            ),
            (key == KeyInput::Char('x') || key == KeyInput::Enter) ==> final(self).pop_up
                && same_but_pop_up(*old(self), *final(self)),
            (key == KeyInput::Char('q') || key == KeyInput::Esc) ==> !final(self).pop_up
                && final(self).exit == (old(self).exit || !old(self).pop_up)
                && final(self).selected == old(self).selected && final(self).panel == old(self).panel && final(self).exec_opt == old(self).exec_opt,
            (key == KeyInput::Char('j') || key == KeyInput::Down || key == KeyInput::Char('k')
                || key == KeyInput::Up) ==> (same_but_selection(*old(self), *final(self)) && (final(self).selected matches Some(i) && final(self).panel == Panel::Index(i))),
            key == KeyInput::Char('y') ==> *final(self) == *old(self),
            !(key == KeyInput::Char('n') || key == KeyInput::Char('x') || key == KeyInput::Enter
                || key == KeyInput::Char('q') || key == KeyInput::Esc || key == KeyInput::Char('j')
                || key == KeyInput::Down || key == KeyInput::Char('k') || key == KeyInput::Up
                || key == KeyInput::Char('y')) ==> *final(self) == *old(self),
    {
        match command_for_key(key) {
            Command::Leave => {
                self.leave();
                PopUpAction::NoAction
            },
            Command::Prev => {
                self.prev();
                PopUpAction::NoAction
            },
            Command::Next => {
                self.next();
                PopUpAction::NoAction
            },
            Command::Update => {
                self.update();
                PopUpAction::NoAction
            },
            Command::ExitPopUp => {
                self.exit_pop_up();
                PopUpAction::NoAction
            },
            Command::UpdatePopUp => self.update_pop_up(),
            Command::NoOp => PopUpAction::NoAction,
        }
    }

    /// Brings a selection past the last strategy back to the last one, as
    /// drawing the list does.
    pub fn clamp_selection(&mut self)
        ensures
            *final(self) == old(self).after_drawing(),
    {
        match self.selected {
            Some(i) => {
                if i >= OPTION_COUNT {
                    self.selected = Some(OPTION_COUNT - 1);
                }
            },
            None => {},
        }
    }

    /// Sets the pop-up for the strategy that the panel shows, as drawing
    /// the pop-up does, and hands it back; `None` when the panel names no
    /// strategy.
    pub fn refresh_pop_up(&mut self) -> (r: Option<ExecOption>)
        ensures
            *final(self) == (MenuState {
                exec_opt: exec_after_run(old(self).exec_opt, old(self).panel.spec_choice()),
                ..*old(self)
            }),
            r == (if is_strategy(old(self).panel.spec_choice()) {
                Some(final(self).exec_opt)
            } else {
                None
            }),
            final(self).selected == old(self).selected && final(self).panel == old(self).panel
                && final(self).pop_up == old(self).pop_up && final(self).exit == old(self).exit,
            old(self).panel == Panel::Welcome ==> (*final(self) == *old(self) && (r is None)),
            old(self).panel is Index && old(self).panel->0 < 3 ==> (final(self).exec_opt.prompt
                == Prompt::Confirm && r == Some(final(self).exec_opt)),
            old(self).panel == Panel::Index(3usize) ==> (final(self).exec_opt.prompt
                == Prompt::ParentInterference && final(self).exec_opt.is_tree && r == Some(
                final(self).exec_opt,
            )),
    {
        let choice = self.panel.choice();
        self.exec_opt.run(choice)
    }
}

impl Default for MenuState {
    fn default() -> (r: Self)
        ensures
            r == (MenuState {
                selected: None,
                panel: Panel::Welcome,
                exit: false,
                pop_up: false,
                exec_opt: ExecOption {
                    prompt: Prompt::Empty,
                    is_tree: false,
                    res_method: ExecTypes::Idle,
                },
            }),
    {
        MenuState::new()
    }
}

/// Every command keeps the panel in step with the selection and the
/// selection within the strategies (or one past the last).
pub proof fn lemma_command_keeps_wf(s: MenuState, cmd: Command)
    requires
        s.wf(),
    ensures
        s.after_command(cmd).wf(),
{
}

/// Drawing the list keeps the panel in step with the selection.
pub proof fn lemma_drawing_keeps_wf(s: MenuState)
    requires
        s.wf(),
    ensures
        s.after_drawing().wf(),
        s.after_drawing().panel == s.panel,
{
}

/// Moving up from the first strategy and drawing selects the last one, and
/// moving up once more selects the one before it.
pub proof fn lemma_up_from_first_after_drawing(s: MenuState)
    requires
        s.selected == Some(0usize),
    ensures
        s.after_command(Command::Prev).after_drawing().selected == Some((OPTION_COUNT - 1) as usize),
        s.after_command(Command::Prev).after_drawing().after_command(Command::Prev).selected
            == Some((OPTION_COUNT - 2) as usize),
{
}

/// Drawing the pop-up changes nothing but the pop-up.
pub proof fn lemma_refresh_keeps_wf(s: MenuState)
    requires
        s.wf(),
    ensures
        (MenuState { exec_opt: exec_after_run(s.exec_opt, s.panel.spec_choice()), ..s }).wf(),
{
}

/// Moving down `OPTION_COUNT` times comes back to the same strategy.
pub proof fn lemma_next_cycles(i: usize)
    requires
        i < OPTION_COUNT,
    ensures
        next_selection(
            Some(next_selection(Some(next_selection(Some(next_selection(Some(i)))))))
        ) == i,
{
}

/// Moving up and then down comes back to the same strategy.
pub proof fn lemma_next_undoes_prev(i: usize)
    requires
        i < OPTION_COUNT,
    ensures
        next_selection(Some(prev_selection(Some(i)))) == i,
{
}

/// Moving down and then up comes back to the same strategy, except from the
/// last one, which moving down leaves for the first.
pub proof fn lemma_prev_undoes_next(i: usize)
    requires
        i < OPTION_COUNT - 1,
    ensures
        prev_selection(Some(next_selection(Some(i)))) == i,
{
}

/// Leaving with the pop-up open only closes it; leaving again exits.
pub proof fn lemma_leave_twice(s: MenuState)
    requires
        s.pop_up,
    ensures
        !s.after_command(Command::Leave).pop_up,
        s.after_command(Command::Leave).exit == s.exit,
        s.after_command(Command::Leave).after_command(Command::Leave).exit,
{
}

/// Once the pop-up has been set for a tree merge, answering yes never runs
/// a git operation again.
pub proof fn lemma_tree_merge_sticks(s: MenuState, choice: Option<usize>)
    requires
        s.exec_opt.is_tree,
    ensures
        exec_after_run(s.exec_opt, choice).is_tree,
        (MenuState { exec_opt: exec_after_run(s.exec_opt, choice), ..s }).pop_up_action()
            != PopUpAction::Execute(
                action_of(exec_after_run(s.exec_opt, choice).res_method, None, None),
            ),
{
}

/// A label and the pop-up agree on the strategy: the label names a
/// description exactly when it names a strategy, and each description goes
/// with the strategy that running the pop-up for that label selects.
pub proof fn lemma_description_matches_strategy(label: Seq<char>, e: ExecOption)
    ensures
        (description_of(label_choice(label)) == DescriptionKind::Empty) <==> !is_strategy(
            label_choice(label),
        ),
        (description_of(label_choice(label)) == DescriptionKind::Local) <==> (is_strategy(
            label_choice(label),
        ) && exec_after_run(e, label_choice(label)).res_method == ExecTypes::AcceptLocal),
        (description_of(label_choice(label)) == DescriptionKind::Foreign) <==> (is_strategy(
            label_choice(label),
        ) && exec_after_run(e, label_choice(label)).res_method == ExecTypes::AcceptForeign),
        (description_of(label_choice(label)) == DescriptionKind::Combination) <==> (is_strategy(
            label_choice(label),
        ) && exec_after_run(e, label_choice(label)).res_method == ExecTypes::Combination),
        (description_of(label_choice(label)) == DescriptionKind::Tree) <==> (is_strategy(
            label_choice(label),
        ) && exec_after_run(e, label_choice(label)).res_method == ExecTypes::TreeMerge),
{
}

/// Answering no closes the pop-up and changes nothing else, whatever the
/// pop-up was set for.
pub proof fn lemma_no_closes_pop_up(s: MenuState)
    ensures
        s.after_command(command_of(KeyInput::Char('n'))) == (MenuState { pop_up: false, ..s }),
{
}

/// Opening the pop-up and answering no leaves the menu as it was, with the
/// pop-up closed.
pub proof fn lemma_open_then_no(s: MenuState)
    ensures
        s.after_command(command_of(KeyInput::Char('x'))).after_command(
            command_of(KeyInput::Char('n')),
        ) == (MenuState { pop_up: false, ..s }),
{
}

/// Each of the first three strategies asks for confirmation, leaves the
/// tree-merge mark as it was and selects its own strategy; the fourth asks
/// about the parent commit.
pub proof fn lemma_run_prompts(e: ExecOption)
    ensures
        forall|k: usize|
            k < 3 ==> #[trigger] exec_after_run(e, Some(k)).prompt == Prompt::Confirm
                && exec_after_run(e, Some(k)).is_tree == e.is_tree,
        exec_after_run(e, Some(0usize)).res_method == ExecTypes::AcceptLocal,
        exec_after_run(e, Some(1usize)).res_method == ExecTypes::AcceptForeign,
        exec_after_run(e, Some(2usize)).res_method == ExecTypes::Combination,
        exec_after_run(e, Some(3usize)).res_method == ExecTypes::TreeMerge,
        exec_after_run(e, Some(3usize)).prompt == Prompt::ParentInterference,
        exec_after_run(e, Some(3usize)).is_tree,
{
}

/// The pop-up that running a strategy sets does not depend on what it was
/// set for before, but for the tree-merge mark.
pub proof fn lemma_run_forgets_previous(e1: ExecOption, e2: ExecOption, k: usize)
    requires
        k < OPTION_COUNT,
        e1.is_tree == e2.is_tree,
    ensures
        exec_after_run(e1, Some(k)) == exec_after_run(e2, Some(k)),
{
}

} // verus!
