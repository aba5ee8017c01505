use std::path::PathBuf;
use tui_editor::model::Key;
use tui_editor::order::Entry;
use tui_editor::position::Position;
use tui_editor::session::{command_for, App, Command, Tab};

fn here() -> Entry {
    Entry { path: PathBuf::from("/work"), file_name: Some("work".to_string()), is_dir: true }
}

#[test]
fn test_app_new_creates_initial_tab() {
    let app = App::new(here());
    assert_eq!(app.tabs.len(), 1);
    assert_eq!(app.current_tab, 0);
    assert_eq!(app.tabs[0].name, "Untitled");
}

#[test]
fn new_session_state() {
    let app = App::new(here());
    assert!(app.show_file_explorer);
    assert!(!app.show_help);
    assert_eq!(app.status_message, Some("New file created".to_string()));
    assert_eq!(app.status_timer, 0);
    assert_eq!(app.file_explorer.current_path, PathBuf::from("/work"));
    assert_eq!(app.tabs[0].content.text(), "");
    assert!(!app.tabs[0].modified);
    assert!(app.tabs[0].path.is_none());
}

#[test]
fn new_file_opens_another_tab() {
    let mut app = App::new(here());
    app.status_timer = 9;
    app.new_file();
    assert_eq!(app.tabs.len(), 2);
    assert_eq!(app.current_tab, 1);
    assert_eq!(app.tabs[1].name, "Untitled");
    assert_eq!(app.status_timer, 0);
}

#[test]
fn open_file_makes_a_tab() {
    let mut app = App::new(here());
    app.open_file(PathBuf::from("/work/a.rs"), Some("a.rs".to_string()), "fn main() {}\n", "/work/a.rs");
    assert_eq!(app.tabs.len(), 2);
    assert_eq!(app.current_tab, 1);
    assert_eq!(app.tabs[1].name, "a.rs");
    assert_eq!(app.tabs[1].path, Some(PathBuf::from("/work/a.rs")));
    assert_eq!(app.tabs[1].content.text(), "fn main() {}\n");
    assert_eq!(app.tabs[1].editor.cursor, Position::new(0, 0));
    assert!(!app.tabs[1].modified);
    assert_eq!(app.status_message, Some("Opened file: /work/a.rs".to_string()));
    app.open_file(PathBuf::from("/"), None, "", "/");
    assert_eq!(app.tabs[2].name, "Untitled");
}

#[test]
fn input_goes_to_the_current_tab() {
    let mut app = App::new(here());
    app.new_file();
    app.handle_input(Key::Char('h'));
    app.handle_input(Key::Char('i'));
    assert_eq!(app.tabs[1].content.text(), "hi");
    assert_eq!(app.tabs[1].editor.cursor, Position::new(0, 2));
    assert!(app.tabs[1].modified);
    assert_eq!(app.tabs[0].content.text(), "");
    assert!(!app.tabs[0].modified);
    app.current_tab = 0;
    app.handle_input(Key::Other);
    assert!(app.tabs[0].modified);
    app.current_tab = 5;
    app.handle_input(Key::Char('x'));
    assert_eq!(app.tabs[0].content.text(), "");
    assert_eq!(app.tabs[1].content.text(), "hi");
    assert!(app.get_current_tab().is_none());
}

#[test]
fn saving() {
    let mut app = App::new(here());
    assert_eq!(app.save_current_file(), None);
    assert_eq!(app.status_message, Some("Save as not implemented yet".to_string()));
    app.open_file(PathBuf::from("/work/a.txt"), Some("a.txt".to_string()), "one", "/work/a.txt");
    app.handle_input(Key::End);
    app.handle_input(Key::Char('!'));
    assert!(app.tabs[1].modified);
    assert_eq!(app.save_current_file(), Some((PathBuf::from("/work/a.txt"), "one!".to_string())));
    assert!(app.tabs[1].modified);
    assert_eq!(app.status_message, Some("Opened file: /work/a.txt".to_string()));
    app.file_saved("/work/a.txt");
    assert!(!app.tabs[1].modified);
    assert_eq!(app.status_message, Some("Saved /work/a.txt".to_string()));
    app.current_tab = 9;
    assert_eq!(app.save_current_file(), None);
    assert_eq!(app.status_message, Some("Saved /work/a.txt".to_string()));
}

#[test]
fn panel_and_status() {
    let mut app = App::new(here());
    app.toggle_panel();
    assert!(!app.show_file_explorer);
    app.toggle_panel();
    assert!(app.show_file_explorer);
    app.status_timer = 3;
    app.set_status_message("hello".to_string());
    assert_eq!(app.status_message, Some("hello".to_string()));
    assert_eq!(app.status_timer, 0);
    assert_eq!(app.get_current_tab().map(|t| t.name.as_str()), Some("Untitled"));
}

#[test]
fn set_directory_shows_the_directory() {
    let mut app = App::new(here());
    let dir = Entry { path: PathBuf::from("/other"), file_name: Some("other".to_string()), is_dir: true };
    let entries = vec![
        Entry { path: PathBuf::from("/other/b"), file_name: Some("b".to_string()), is_dir: false },
        Entry { path: PathBuf::from("/other/a"), file_name: Some("a".to_string()), is_dir: false },
    ];
    app.set_directory(dir, entries);
    assert_eq!(app.file_explorer.current_path, PathBuf::from("/other"));
    assert!(app.file_explorer.root.expanded);
    assert_eq!(app.file_explorer.get_all_files(), vec![PathBuf::from("/other/a"), PathBuf::from("/other/b")]);
}

#[test]
fn tab_titles() {
    let mut tab = Tab::untitled();
    assert_eq!(tab.title(false), "Untitled");
    assert_eq!(tab.title(true), "â–¶ Untitled");
    tab.modified = true;
    assert_eq!(tab.title(false), "Untitled *");
    assert_eq!(tab.title(true), "â–¶ Untitled *");
    let tab = Tab::opened(PathBuf::from("/x/y.rs"), Some("y.rs".to_string()), "text");
    assert_eq!(tab.title(false), "y.rs");
}

#[test]
fn commands() {
    assert_eq!(command_for(Key::Char('q'), false), Command::Quit);
    assert_eq!(command_for(Key::Ctrl('q'), false), Command::Quit);
    assert_eq!(command_for(Key::Ctrl('n'), false), Command::NewFile);
    assert_eq!(command_for(Key::Ctrl('o'), false), Command::OpenFile);
    assert_eq!(command_for(Key::Ctrl('s'), false), Command::Save);
    assert_eq!(command_for(Key::Char('n'), false), Command::Ignore);
    assert_eq!(command_for(Key::Char('o'), false), Command::Ignore);
    assert_eq!(command_for(Key::Char('s'), false), Command::Ignore);
    assert_eq!(command_for(Key::Tab, false), Command::TogglePanel);
    assert_eq!(command_for(Key::F(1), false), Command::ToggleHelp);
    assert_eq!(command_for(Key::F(2), false), Command::Input);
    assert_eq!(command_for(Key::Char('a'), false), Command::Input);
    assert_eq!(command_for(Key::Ctrl('z'), false), Command::Input);
    assert_eq!(command_for(Key::Enter, false), Command::Input);
    assert_eq!(command_for(Key::Other, false), Command::Input);
    for key in [Key::Char('q'), Key::Ctrl('s'), Key::Tab, Key::F(1), Key::Enter, Key::Other] {
        assert_eq!(command_for(key, true), Command::CloseHelp);
    }
}
