use git_conflict::menu::{
    command_for_key, description_kind, label_index, Command, DescriptionKind, ExecOption,
    ExecTypes, GitAction, KeyInput, MenuState, Panel, PopUpAction, Prompt, OPTION_COUNT,
};

fn press(m: &mut MenuState, c: char) -> PopUpAction {
    m.handle_key(KeyInput::Char(c))
}

#[test]
fn starts_with_nothing_selected() {
    let m = MenuState::new();
    assert_eq!(m.selected, None);
    assert!(m.panel == Panel::Welcome);
    assert!(!m.exit && !m.pop_up);
    assert!(m.exec_opt.res_method == ExecTypes::Idle);
    assert!(m.exec_opt.prompt == Prompt::Empty);
    assert!(!m.exec_opt.is_tree);
}

#[test]
fn moving_down_cycles_through_the_strategies() {
    let mut m = MenuState::new();
    let mut seen = vec![];
    for _ in 0..5 {
        m.next();
        seen.push(m.selected.unwrap());
        assert!(m.panel == Panel::Index(m.selected.unwrap()));
    }
    assert_eq!(seen, vec![0, 1, 2, 3, 0]);
}

#[test]
fn moving_up_from_the_first_goes_past_the_last() {
    let mut m = MenuState::new();
    m.prev();
    assert_eq!(m.selected, Some(0));
    m.prev();
    assert_eq!(m.selected, Some(OPTION_COUNT));
    assert!(m.panel == Panel::Index(4));
    m.prev();
    assert_eq!(m.selected, Some(3));
    m.next();
    assert_eq!(m.selected, Some(0));
}

#[test]
fn up_then_down_returns() {
    for i in 0..OPTION_COUNT {
        let mut m = MenuState::new();
        m.selected = Some(i);
        m.panel = Panel::Index(i);
        m.prev();
        m.next();
        assert_eq!(m.selected, Some(i));
    }
}

#[test]
fn down_then_up_from_last_does_not_return() {
    let mut m = MenuState::new();
    m.selected = Some(3);
    m.panel = Panel::Index(3);
    m.next();
    m.prev();
    assert_eq!(m.selected, Some(4));
}

#[test]
fn leave_closes_pop_up_before_exiting() {
    let mut m = MenuState::new();
    press(&mut m, 'x');
    assert!(m.pop_up);
    press(&mut m, 'q');
    assert!(!m.pop_up && !m.exit);
    m.handle_key(KeyInput::Esc);
    assert!(m.exit);
}

#[test]
fn keys_map_to_commands() {
    assert!(command_for_key(KeyInput::Char('q')) == Command::Leave);
    assert!(command_for_key(KeyInput::Esc) == Command::Leave);
    assert!(command_for_key(KeyInput::Char('k')) == Command::Prev);
    assert!(command_for_key(KeyInput::Up) == Command::Prev);
    assert!(command_for_key(KeyInput::Char('j')) == Command::Next);
    assert!(command_for_key(KeyInput::Down) == Command::Next);
    assert!(command_for_key(KeyInput::Enter) == Command::Update);
    assert!(command_for_key(KeyInput::Char('x')) == Command::Update);
    assert!(command_for_key(KeyInput::Char('n')) == Command::ExitPopUp);
    assert!(command_for_key(KeyInput::Char('y')) == Command::UpdatePopUp);
    assert!(command_for_key(KeyInput::Char('z')) == Command::NoOp);
    assert!(command_for_key(KeyInput::Other) == Command::NoOp);
}

#[test]
fn confirming_local_runs_discard_of_theirs() {
    let mut m = MenuState::new();
    press(&mut m, 'j');
    press(&mut m, 'x');
    let shown = m.refresh_pop_up().unwrap();
    assert!(shown.prompt == Prompt::Confirm);
    assert!(shown.res_method == ExecTypes::AcceptLocal);
    assert!(press(&mut m, 'y') == PopUpAction::Execute(GitAction::Discard { version: true }));
}

#[test]
fn each_strategy_runs_its_operation() {
    let expected = [
        GitAction::Discard { version: true },
        GitAction::Discard { version: false },
        GitAction::Combine,
    ];
    for (i, want) in expected.iter().enumerate() {
        let mut m = MenuState::new();
        for _ in 0..=i {
            m.next();
        }
        m.update();
        m.refresh_pop_up().unwrap();
        assert!(m.update_pop_up() == PopUpAction::Execute(*want));
    }
}

#[test]
fn yes_without_pop_up_does_nothing() {
    let mut m = MenuState::new();
    assert!(press(&mut m, 'y') == PopUpAction::NoAction);
}

#[test]
fn tree_merge_prompt_sticks() {
    let mut m = MenuState::new();
    for _ in 0..4 {
        m.next();
    }
    m.update();
    let shown = m.refresh_pop_up().unwrap();
    assert!(shown.prompt == Prompt::ParentInterference);
    assert!(shown.is_tree);
    assert!(press(&mut m, 'y') == PopUpAction::Unimplemented);
    press(&mut m, 'n');
    m.next();
    m.update();
    m.refresh_pop_up().unwrap();
    assert!(m.exec_opt.res_method == ExecTypes::AcceptLocal);
    assert!(m.exec_opt.is_tree);
    assert!(press(&mut m, 'y') == PopUpAction::Unimplemented);
}

#[test]
fn pop_up_for_welcome_or_past_last_is_none() {
    let mut m = MenuState::new();
    assert!(m.refresh_pop_up().is_none());
    m.prev();
    m.prev();
    assert!(m.refresh_pop_up().is_none());
}

#[test]
fn exec_option_run() {
    let mut e = ExecOption::new();
    assert!(e.run(Some(7)).is_none());
    assert!(e.res_method == ExecTypes::Idle);
    assert!(e.run(None).is_none());
    let r = e.run(Some(2)).unwrap();
    assert!(r.res_method == ExecTypes::Combination);
    assert!(e.exec_action(None, None) == GitAction::Combine);
    e.run(Some(3)).unwrap();
    assert!(
        e.exec_action(Some(false), Some(false))
            == GitAction::TreeMerge { version: false, parent_interference: false }
    );
    assert!(
        e.exec_action(Some(true), Some(false))
            == GitAction::TreeMerge { version: false, parent_interference: true }
    );
    assert!(
        e.exec_action(None, Some(false))
            == GitAction::TreeMerge { version: false, parent_interference: true }
    );
    assert!(
        e.exec_action(None, None)
            == GitAction::TreeMerge { version: true, parent_interference: true }
    );
    let d = ExecOption::default();
    assert!(d.exec_action(None, None) == GitAction::Nothing);
}

#[test]
fn labels_name_strategies() {
    assert_eq!(label_index("0"), Some(0));
    assert_eq!(label_index("3"), Some(3));
    assert_eq!(label_index("4"), None);
    assert_eq!(label_index("00"), None);
    assert_eq!(label_index(""), None);
    assert_eq!(label_index("welcome to git conflict manager"), None);
    assert!(description_kind("0") == DescriptionKind::Local);
    assert!(description_kind("1") == DescriptionKind::Foreign);
    assert!(description_kind("2") == DescriptionKind::Combination);
    assert!(description_kind("3") == DescriptionKind::Tree);
    assert!(description_kind("x") == DescriptionKind::Empty);
}

#[test]
fn default_menu_is_new_menu() {
    assert!(MenuState::default() == MenuState::new());
}

#[test]
fn label_description_and_pop_up_agree() {
    for label in ["0", "1", "2", "3", "4", "", "x"] {
        let mut e = ExecOption::default();
        let ran = e.run(label_index(label));
        assert_eq!(description_kind(label) == DescriptionKind::Empty, ran.is_none());
    }
}

#[test]
fn drawing_brings_the_selection_back_to_the_last_strategy() {
    let mut m = MenuState::new();
    m.prev();
    m.prev();
    assert_eq!(m.selected, Some(4));
    m.clamp_selection();
    assert_eq!(m.selected, Some(3));
    assert!(m.panel == Panel::Index(4));
    m.prev();
    assert_eq!(m.selected, Some(2));
    assert!(m.panel == Panel::Index(2));
    let mut n = MenuState::new();
    n.clamp_selection();
    assert_eq!(n.selected, None);
    n.next();
    n.clamp_selection();
    assert_eq!(n.selected, Some(0));
}
