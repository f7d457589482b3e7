use uninstaller::app::{Action, App, InputMode, KeyCode, KeyPress};
use uninstaller::managers::{ListError, ManagerKind, Package};

fn p(name: &str) -> Package {
    Package { name: name.to_string(), version: "1".to_string(), id: format!("id.{}", name) }
}

fn app_with(names: &[&str]) -> App {
    App::new(ManagerKind::Pacman, Ok(names.iter().map(|n| p(n)).collect()))
}

fn key(c: KeyCode) -> KeyPress {
    KeyPress { code: c, ctrl: false }
}

fn ch(c: char) -> KeyPress {
    key(KeyCode::Char(c))
}

#[test]
fn new_selects_first_package() {
    let app = app_with(&["a", "b"]);
    assert_eq!(app.state.selected(), Some(0));
    assert_eq!(app.input_mode, InputMode::Normal);
    assert!(app.search_query.is_empty());
    assert!(app.selected_for_removal.is_empty());
    assert!(app.logs.is_empty());
    assert_eq!(app.manager, ManagerKind::Pacman);
}

#[test]
fn failed_listing_gives_empty_list() {
    let app = App::new(ManagerKind::Flatpak, Err(ListError::CommandFailed));
    assert!(app.packages.is_empty());
    assert_eq!(app.state.selected(), None);
}

#[test]
fn next_and_previous_wrap() {
    let mut app = app_with(&["a", "b", "c"]);
    app.next();
    assert_eq!(app.state.selected(), Some(1));
    app.next();
    app.next();
    assert_eq!(app.state.selected(), Some(0));
    app.previous();
    assert_eq!(app.state.selected(), Some(2));
    app.previous();
    assert_eq!(app.state.selected(), Some(1));
}

#[test]
fn previous_undoes_next() {
    for start in 0..4 {
        let mut app = app_with(&["a", "b", "c", "d"]);
        app.state.select(Some(start));
        app.next();
        app.previous();
        assert_eq!(app.state.selected(), Some(start));
        app.previous();
        app.next();
        assert_eq!(app.state.selected(), Some(start));
    }
}

#[test]
fn moves_on_empty_list_select_zero() {
    let mut app = app_with(&[]);
    assert_eq!(app.state.selected(), None);
    app.next();
    assert_eq!(app.state.selected(), Some(0));
    app.previous();
    assert_eq!(app.state.selected(), Some(0));
}

#[test]
fn refresh_replaces_packages() {
    let mut app = app_with(&["a"]);
    app.state.select(Some(5));
    app.refresh_packages(Ok(vec![p("x"), p("y")]));
    assert_eq!(app.packages.len(), 2);
    assert_eq!(app.state.selected(), Some(0));
    app.refresh_packages(Err(ListError::InvalidUtf8));
    assert!(app.packages.is_empty());
    assert_eq!(app.state.selected(), None);
}

#[test]
fn search_typing_and_backspace() {
    let mut app = app_with(&["a"]);
    assert!(matches!(app.handle_key(ch('s')), Action::Continue));
    assert_eq!(app.input_mode, InputMode::Search);
    app.handle_key(ch('q'));
    app.handle_key(ch('é'));
    assert_eq!(app.search_query, "qé");
    app.handle_key(key(KeyCode::Backspace));
    assert_eq!(app.search_query, "q");
    app.handle_key(key(KeyCode::Backspace));
    app.handle_key(key(KeyCode::Backspace));
    assert_eq!(app.search_query, "");
    app.handle_key(ch('z'));
    app.handle_key(key(KeyCode::Esc));
    assert_eq!(app.input_mode, InputMode::Normal);
    assert_eq!(app.search_query, "z");
    app.handle_key(ch('S'));
    app.handle_key(key(KeyCode::Enter));
    assert_eq!(app.input_mode, InputMode::Normal);
}

#[test]
fn clear_search_with_c_but_not_with_control() {
    let mut app = app_with(&["a"]);
    app.search_query = "abc".to_string();
    app.handle_key(KeyPress { code: KeyCode::Char('C'), ctrl: true });
    assert_eq!(app.search_query, "abc");
    app.handle_key(ch('C'));
    assert_eq!(app.search_query, "");
}

#[test]
fn control_c_quits_in_every_mode() {
    for mode in [InputMode::Normal, InputMode::Search, InputMode::Executing, InputMode::Done] {
        let mut app = app_with(&["a"]);
        app.input_mode = mode;
        let r = app.handle_key(KeyPress { code: KeyCode::Char('c'), ctrl: true });
        assert!(matches!(r, Action::Quit));
        assert_eq!(app.input_mode, mode);
    }
}

#[test]
fn q_quits_only_when_browsing() {
    let mut app = app_with(&["a"]);
    assert!(matches!(app.handle_key(ch('Q')), Action::Quit));
    app.input_mode = InputMode::Search;
    assert!(matches!(app.handle_key(ch('q')), Action::Continue));
    assert_eq!(app.search_query, "q");
}

#[test]
fn arrows_move_selection() {
    let mut app = app_with(&["a", "b"]);
    app.handle_key(key(KeyCode::Down));
    assert_eq!(app.state.selected(), Some(1));
    app.handle_key(key(KeyCode::Up));
    assert_eq!(app.state.selected(), Some(0));
}

#[test]
fn filter_ignores_case() {
    let mut app = app_with(&["Firefox", "gimp", "FIREWALL"]);
    app.search_query = "FiRe".to_string();
    assert_eq!(app.filtered_packages(), vec![0, 2]);
    app.search_query = String::new();
    assert_eq!(app.filtered_packages(), vec![0, 1, 2]);
    app.search_query = "xyz".to_string();
    assert!(app.filtered_packages().is_empty());
}

#[test]
fn space_toggles_mark_of_selected_shown_package() {
    let mut app = app_with(&["alpha", "beta", "gamma"]);
    app.search_query = "A".to_string();
    // every name holds an "a": rows are 0, 1, 2
    app.state.select(Some(1));
    app.handle_key(ch(' '));
    assert_eq!(app.selected_for_removal, vec!["id.beta"]);
    app.search_query = "GAM".to_string();
    app.state.select(Some(0));
    app.handle_key(ch(' '));
    assert_eq!(app.selected_for_removal, vec!["id.beta", "id.gamma"]);
    app.search_query = String::new();
    app.state.select(Some(1));
    app.handle_key(ch(' '));
    assert_eq!(app.selected_for_removal, vec!["id.gamma"]);
    app.state.select(Some(7));
    app.handle_key(ch(' '));
    assert_eq!(app.selected_for_removal, vec!["id.gamma"]);
}

#[test]
fn toggling_twice_restores_marks() {
    let mut app = app_with(&["a", "b"]);
    app.selected_for_removal = vec!["id.b".to_string()];
    app.handle_key(ch(' '));
    app.handle_key(ch(' '));
    assert_eq!(app.selected_for_removal, vec!["id.b"]);
}

#[test]
fn switching_manager_clears_marks_and_refreshes() {
    let mut app = app_with(&["a"]);
    app.selected_for_removal = vec!["id.a".to_string()];
    assert!(matches!(app.handle_key(ch('f')), Action::Refresh));
    assert_eq!(app.manager, ManagerKind::Flatpak);
    assert!(app.selected_for_removal.is_empty());
    assert!(matches!(app.handle_key(ch('P')), Action::Refresh));
    assert_eq!(app.manager, ManagerKind::Pacman);
}

#[test]
fn enter_starts_removal_only_with_marks() {
    let mut app = app_with(&["a", "b"]);
    assert!(matches!(app.handle_key(key(KeyCode::Enter)), Action::Continue));
    assert_eq!(app.input_mode, InputMode::Normal);
    app.handle_key(ch(' '));
    match app.handle_key(key(KeyCode::Enter)) {
        Action::Remove(cmd) => {
            assert_eq!(cmd.program, "sudo");
            assert_eq!(cmd.args, vec!["pacman", "-Rns", "--noconfirm", "id.a"]);
        }
        _ => panic!("expected a removal"),
    }
    assert_eq!(app.input_mode, InputMode::Executing);
    assert_eq!(app.logs, vec!["[sudo] password for uninstaller: ", ""]);
    // keys do nothing while the removal runs
    assert!(matches!(app.handle_key(ch('q')), Action::Continue));
    assert!(matches!(app.handle_key(key(KeyCode::Enter)), Action::Continue));
    assert_eq!(app.input_mode, InputMode::Executing);
}

#[test]
fn removal_events_fill_the_log() {
    let mut app = app_with(&["a"]);
    app.input_mode = InputMode::Executing;
    app.record_output("removing a...".to_string());
    app.finish_removal("exit status: 0");
    assert_eq!(app.input_mode, InputMode::Done);
    assert_eq!(app.logs, vec!["removing a...", "\n[Process Completed with: exit status: 0]"]);
    let mut other = app_with(&["a"]);
    other.input_mode = InputMode::Executing;
    other.removal_failed();
    assert_eq!(other.logs, vec!["ERROR: Failed to start process!"]);
    assert_eq!(other.input_mode, InputMode::Done);
}

#[test]
fn enter_after_removal_returns_to_browsing() {
    let mut app = app_with(&["a"]);
    app.selected_for_removal = vec!["id.a".to_string()];
    app.input_mode = InputMode::Done;
    app.logs = vec!["x".to_string()];
    assert!(matches!(app.handle_key(ch('x')), Action::Continue));
    assert_eq!(app.input_mode, InputMode::Done);
    assert!(matches!(app.handle_key(key(KeyCode::Enter)), Action::Refresh));
    assert_eq!(app.input_mode, InputMode::Normal);
    assert!(app.logs.is_empty());
    assert!(app.selected_for_removal.is_empty());
}
