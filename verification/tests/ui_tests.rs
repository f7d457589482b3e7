use uninstaller::app::{App, InputMode};
use uninstaller::managers::{ManagerKind, Package};
use uninstaller::ui::{footer, header_text, log_scroll, log_title, text_height, ui, Screen};

fn p(name: &str, version: &str) -> Package {
    Package { name: name.to_string(), version: version.to_string(), id: name.to_string() }
}

fn app() -> App {
    App::new(ManagerKind::Pacman, Ok(vec![p("bash", "5.2"), p("zsh", "5.9"), p("fish", "3.7")]))
}

#[test]
fn header_names_manager_and_system_key() {
    assert_eq!(
        header_text(ManagerKind::Flatpak, "pacman"),
        " Mode: Flatpak | pacman [P] | Flatpak [F] | Search [S] | Select [Space] | Uninstall [Enter] | Quit [Q] "
    );
    assert!(header_text(ManagerKind::Apt, "").starts_with(" Mode: APT |  [ ] |"));
}

#[test]
fn footer_texts() {
    let mut a = app();
    assert_eq!(footer(&a, 3), (" Status ".to_string(), " 3 packages found. ".to_string()));
    a.search_query = "sh".to_string();
    assert_eq!(footer(&a, 2).1, " Filter active: 'sh' (Press 'C' to clear) ");
    a.input_mode = InputMode::Search;
    assert_eq!(
        footer(&a, 2),
        (" Search (Press Enter/Esc to stop) ".to_string(), " sh_".to_string())
    );
    a.input_mode = InputMode::Done;
    assert_eq!(footer(&a, 2), (" Status ".to_string(), " ... ".to_string()));
}

#[test]
fn text_heights() {
    assert_eq!(text_height(100, 4), Some(3));
    assert_eq!(text_height(100, 24), Some(7));
    assert_eq!(text_height(0, 80), Some(3));
    assert_eq!(text_height(10, 80), Some(3));
    assert_eq!(text_height(200, 54), Some(6));
    assert_eq!(text_height(65535, 6), None);
    assert_eq!(text_height(65534, 5), None);
    assert_eq!(text_height(65533, 5), Some(65535));
    assert_eq!(text_height(65536 + 10, 80), Some(3));
}

#[test]
fn log_title_and_scroll() {
    assert_eq!(log_title(InputMode::Executing, 2), " 2 packages uninstalling... ");
    assert_eq!(log_title(InputMode::Done, 12), " 12 packages uninstalled! (Press ENTER to return) ");
    assert_eq!(log_scroll(30, 12), 20);
    assert_eq!(log_scroll(5, 12), 0);
    assert_eq!(log_scroll(5, 1), 5);
}

#[test]
fn browse_frame() {
    let mut a = app();
    a.search_query = "SH".to_string();
    a.selected_for_removal = vec!["zsh".to_string()];
    a.state.select(Some(2));
    match ui(&mut a, 80, 24, "pacman") {
        Some(Screen::Browse { header, header_height, items, footer_title, footer_text, footer_height }) => {
            assert!(header.starts_with(" Mode: Pacman | pacman [P]"));
            assert_eq!(header_height, 4);
            assert_eq!(footer_title, " Status ");
            assert_eq!(footer_text, " Filter active: 'SH' (Press 'C' to clear) ");
            assert_eq!(footer_height, 3);
            let rows: Vec<(String, bool)> = items.into_iter().map(|i| (i.text, i.marked)).collect();
            assert_eq!(
                rows,
                vec![
                    ("[ ] bash (Version: 5.2)".to_string(), false),
                    ("[X] zsh (Version: 5.9)".to_string(), true),
                    ("[ ] fish (Version: 3.7)".to_string(), false),
                ]
            );
        }
        _ => panic!("expected the browsing screen"),
    }
    assert_eq!(a.state.selected(), Some(2));
}

#[test]
fn browse_frame_clamps_selection() {
    let mut a = app();
    a.search_query = "z".to_string();
    a.state.select(Some(2));
    match ui(&mut a, 80, 24, "pacman") {
        Some(Screen::Browse { items, footer_text, .. }) => {
            assert_eq!(items.len(), 1);
            assert_eq!(footer_text, " Filter active: 'z' (Press 'C' to clear) ");
        }
        _ => panic!("expected the browsing screen"),
    }
    assert_eq!(a.state.selected(), Some(0));
    a.search_query = "nothing".to_string();
    ui(&mut a, 80, 24, "pacman");
    assert_eq!(a.state.selected(), None);
}

#[test]
fn browse_frame_counts_packages() {
    let mut a = app();
    match ui(&mut a, 10, 24, "apt") {
        Some(Screen::Browse { footer_text, footer_height, header_height, .. }) => {
            assert_eq!(footer_text, " 3 packages found. ");
            // 19 bytes in rows of 6
            assert_eq!(footer_height, 6);
            assert!(header_height > 3);
        }
        _ => panic!("expected the browsing screen"),
    }
}

#[test]
fn log_frame() {
    let mut a = app();
    a.input_mode = InputMode::Executing;
    a.selected_for_removal = vec!["zsh".to_string()];
    a.logs = (0..30).map(|i| format!("line {}", i)).collect();
    match ui(&mut a, 80, 12, "pacman") {
        Some(Screen::Log { title, text, scroll }) => {
            assert_eq!(title, " 1 packages uninstalling... ");
            assert!(text.starts_with("line 0\nline 1\n"));
            assert!(text.ends_with("line 29"));
            assert_eq!(scroll, 20);
        }
        _ => panic!("expected the log screen"),
    }
}
