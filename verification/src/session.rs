//! The editing session: the open files, each in a tab of its own, the
//! directory tree beside them, and what a key means to the whole.
//!
//! A session reads and writes no file. Whoever runs it reads what is to be
//! opened and writes what is to be saved.

use std::path::PathBuf;
use vstd::prelude::*;
use crate::buffer::TextBuffer;
use crate::editor::Editor;
use crate::file_explorer::{is_node_of, listing, nodes_of, FileExplorer};
use crate::model;
use crate::model::Key;
use crate::order::{node_name, Entry};

verus! {

/// One open file: its text, the editor on it, and where it is kept, if it
/// has been kept anywhere yet.
pub struct Tab {
    pub path: Option<PathBuf>,
    pub content: TextBuffer,
    pub editor: Editor,
    pub modified: bool,
    pub name: String,
}

/// The state of the session.
pub struct App {
    pub tabs: Vec<Tab>,
    pub current_tab: usize,
    pub file_explorer: FileExplorer,
    pub show_file_explorer: bool,
    pub show_help: bool,
    pub status_message: Option<String>,
    pub status_timer: u64,
}

/// What the session makes of a key.
#[derive(Debug, Clone, Copy, PartialEq, Eq, Structural)]
pub enum Command {
    /// Leave the program.
    Quit,
    /// Take the help away; the key is used up by that.
    CloseHelp,
    /// Open a tab on a new, empty file.
    NewFile,
    /// Ask which file to open.
    OpenFile,
    /// Write the current tab's text to its file.
    Save,
    /// Show or hide the directory tree.
    TogglePanel,
    /// Show or hide the help.
    ToggleHelp,
    /// Hand the key to the current tab's editor.
    Input,
    /// Do nothing.
    Ignore,
}

/// What the session makes of `key` while the help shows or does not. The
/// letters `q`, `n`, `o` and `s` never reach the editor: `q` leaves, and the
/// others are commands with the control key and nothing without it.
pub open spec fn command_of(key: Key, show_help: bool) -> Command {
    if show_help {
        Command::CloseHelp
    } else {
        match key {
            Key::Char(c) => if c == 'q' {
                Command::Quit
            } else if c == 'n' || c == 'o' || c == 's' {
                Command::Ignore
            } else {
                Command::Input
            },
            Key::Ctrl(c) => if c == 'q' {
                Command::Quit
            } else if c == 'n' {
                Command::NewFile
            } else if c == 'o' {
                Command::OpenFile
            } else if c == 's' {
                Command::Save
            } else {
                Command::Input
            },
            Key::Tab => Command::TogglePanel,
            Key::F(n) => if n == 1 {
                Command::ToggleHelp
            } else {
                Command::Input
            },
            _ => Command::Input,
        }
    }
}

/// See [`command_of`].
pub fn command_for(key: Key, show_help: bool) -> (command: Command)
    ensures
        command == command_of(key, show_help),
{
    if show_help {
        return Command::CloseHelp;
    }
    match key {
        Key::Char(c) => {
            if c == 'q' {
                Command::Quit
            } else if c == 'n' || c == 'o' || c == 's' {
                Command::Ignore
            } else {
                Command::Input
            }
        },
        Key::Ctrl(c) => {
            if c == 'q' {
                Command::Quit
            } else if c == 'n' {
                Command::NewFile
            } else if c == 'o' {
                Command::OpenFile
            } else if c == 's' {
                Command::Save
            } else {
                Command::Input
            }
        },
        Key::Tab => Command::TogglePanel,
        Key::F(n) => {
            if n == 1 {
                Command::ToggleHelp
            } else {
                Command::Input
            }
        },
        _ => Command::Input,
    }
}

impl Tab {
    /// The cursor of the tab's editor stands in the tab's text.
    pub open spec fn wf(&self) -> bool {
        self.editor.cursor_valid(self.content@)
    }

    /// A tab on a new, empty file.
    pub fn untitled() -> (tab: Self)
        ensures
            tab.wf(),
            tab.path is None,
            tab.content@ == Seq::<char>::empty(),
            tab.editor.cursor@ == (crate::lines::Place { row: 0, col: 0 }),
            !tab.modified,
            tab.name@ == "Untitled"@,
    {
        let content = TextBuffer::new();
        proof {
            crate::lines::lemma_line_bounds(content@, 0);
        }
        Tab {
            path: None,
            content,
            editor: Editor::new(),
            modified: false,
            name: "Untitled".to_owned(),
        }
    }

    /// A tab on the file at `path`, which held `text`. It goes by
    /// `file_name`, or by "Untitled" for want of one.
    pub fn opened(path: PathBuf, file_name: Option<String>, text: &str) -> (tab: Self)
        ensures
            tab.wf(),
            tab.path == Some(path),
            tab.content@ == text@,
            tab.editor.cursor@ == (crate::lines::Place { row: 0, col: 0 }),
            !tab.modified,
            tab.name@ == match file_name {
                Some(name) => name@,
                None => "Untitled"@,
            },
    {
        let content = TextBuffer::from_str(text);
        proof {
            crate::lines::lemma_line_bounds(content@, 0);
        }
        let name = match file_name {
            Some(name) => name,
            None => "Untitled".to_owned(),
        };
        Tab { path: Some(path), content, editor: Editor::new(), modified: false, name }
    }

    /// The tab's heading: its name, a star behind it where the text has
    /// changed, and a mark before it where the tab is the current one.
    pub fn title(&self, current: bool) -> (title: String)
        ensures
            title@ == tab_title(self.name@, self.modified, current),
    {
        let mut title = if current {
            "â–¶ ".to_owned()
        } else {
            String::new()
        };
        title.append(self.name.as_str());
        if self.modified {
            title.append(" *");
        }
        assert(title@ =~= tab_title(self.name@, self.modified, current));
        title
    }
}

/// The heading of a tab.
pub open spec fn tab_title(name: Seq<char>, modified: bool, current: bool) -> Seq<char> {
    (if current {
        "â–¶ "@
    } else {
        Seq::empty()
    }) + name + (if modified {
        " *"@
    } else {
        Seq::empty()
    })
}

impl App {
    /// In every tab the cursor stands in the tab's text.
    pub open spec fn wf(&self) -> bool {
        forall|i: int| 0 <= i < self.tabs@.len() ==> (#[trigger] self.tabs@[i]).wf()
    }

    /// A session on the directory `current_dir`, with one tab on a new,
    /// empty file.
    pub fn new(current_dir: Entry) -> (app: Self)
        ensures
            app.wf(),
            app.tabs@.len() == 1,
            app.current_tab == 0,
            app.tabs@[0].name@ == "Untitled"@,
            app.tabs@[0].content@ == Seq::<char>::empty(),
            is_node_of(app.file_explorer.root, current_dir),
            app.show_file_explorer,
            !app.show_help,
            app.status_message matches Some(m) && m@ == "New file created"@,
            app.status_timer == 0,
    {
        let mut app = Self {
            tabs: Vec::new(),
            current_tab: 0,
            file_explorer: FileExplorer::new(current_dir),
            show_file_explorer: true,
            show_help: false,
            status_message: None,
            status_timer: 0,
        };
        app.new_file();
        app
    }

    /// Opens a tab on a new, empty file and makes it the current one.
    pub fn new_file(&mut self)
        requires
            old(self).wf(),
        ensures
            final(self).wf(),
            final(self).tabs@.len() == old(self).tabs@.len() + 1,
            final(self).tabs@.take(old(self).tabs@.len() as int) == old(self).tabs@,
            final(self).tabs@.last().name@ == "Untitled"@,
            final(self).tabs@.last().content@ == Seq::<char>::empty(),
            final(self).tabs@.last().path is None,
            final(self).current_tab == old(self).tabs@.len(),
            final(self).status_message matches Some(m) && m@ == "New file created"@,
            final(self).status_timer == 0,
            final(self).file_explorer == old(self).file_explorer,
            final(self).show_file_explorer == old(self).show_file_explorer,
            final(self).show_help == old(self).show_help,
    {
        self.tabs.push(Tab::untitled());
        self.current_tab = self.tabs.len() - 1;
        self.set_status_message("New file created".to_owned());
        assert(self.tabs@.take(old(self).tabs@.len() as int) =~= old(self).tabs@);
    }

    /// Opens a tab on the file at `path`, which held `text`, and makes it
    /// the current one. `shown` is the path as the status line is to show
    /// it.
    pub fn open_file(&mut self, path: PathBuf, file_name: Option<String>, text: &str, shown: &str)
        requires
            old(self).wf(),
        ensures
            final(self).wf(),
            final(self).tabs@.len() == old(self).tabs@.len() + 1,
            final(self).tabs@.take(old(self).tabs@.len() as int) == old(self).tabs@,
            final(self).tabs@.last().path == Some(path),
            final(self).tabs@.last().content@ == text@,
            !final(self).tabs@.last().modified,
            final(self).tabs@.last().name@ == match file_name {
                Some(name) => name@,
                None => "Untitled"@,
            },
            final(self).current_tab == old(self).tabs@.len(),
            final(self).status_message matches Some(m) && m@ == "Opened file: "@ + shown@,
            final(self).status_timer == 0,
            final(self).file_explorer == old(self).file_explorer,
            final(self).show_file_explorer == old(self).show_file_explorer,
            final(self).show_help == old(self).show_help,
    {
        self.tabs.push(Tab::opened(path, file_name, text));
        self.current_tab = self.tabs.len() - 1;
        let mut message = "Opened file: ".to_owned();
        message.append(shown);
        self.set_status_message(message);
        assert(self.tabs@.take(old(self).tabs@.len() as int) =~= old(self).tabs@);
    }

    /// What is to be written to save the current tab: the path and the
    /// text. A tab that has no path has nothing to write, and the status
    /// line says so. Nothing else changes; see [`App::file_saved`].
    pub fn save_current_file(&mut self) -> (to_write: Option<(PathBuf, String)>)
        ensures
            final(self).tabs == old(self).tabs,
            final(self).current_tab == old(self).current_tab,
            final(self).file_explorer == old(self).file_explorer,
            final(self).show_file_explorer == old(self).show_file_explorer,
            final(self).show_help == old(self).show_help,
            to_write is Some <==> old(self).current_tab < old(self).tabs@.len() && old(self).tabs@[old(self).current_tab as int].path is Some,
            to_write matches Some(w) ==> Some(w.0) == old(self).tabs@[old(self).current_tab as int].path && w.1@ == old(self).tabs@[old(self).current_tab as int].content@,
            to_write is Some || old(self).current_tab >= old(self).tabs@.len() ==> final(self).status_message == old(self).status_message && final(self).status_timer == old(self).status_timer,
            to_write is None && old(self).current_tab < old(self).tabs@.len() ==> final(self).status_timer == 0 && (final(self).status_message matches Some(m) && m@
                == "Save as not implemented yet"@),
    {
        if self.current_tab < self.tabs.len() {
            let tab = &self.tabs[self.current_tab];
            match &tab.path {
                Some(path) => {
                    return Some((path.clone(), tab.content.text()));
                },
                None => {},
            }
            self.set_status_message("Save as not implemented yet".to_owned());
        }
        None
    }

    /// Notes that the current tab's text was written to its file. `shown`
    /// is the path as the status line is to show it.
    pub fn file_saved(&mut self, shown: &str)
        requires
            old(self).current_tab < old(self).tabs@.len(),
        ensures
            final(self).tabs@.len() == old(self).tabs@.len(),
            forall|i: int|
                0 <= i < old(self).tabs@.len() && i != old(self).current_tab ==> final(self).tabs@[i] == old(self).tabs@[i],
            final(self).tabs@[old(self).current_tab as int] == (Tab {
                modified: false,
                ..old(self).tabs@[old(self).current_tab as int]
            }),
            final(self).current_tab == old(self).current_tab,
            final(self).status_message matches Some(m) && m@ == "Saved "@ + shown@,
            final(self).status_timer == 0,
            final(self).file_explorer == old(self).file_explorer,
            final(self).show_file_explorer == old(self).show_file_explorer,
            final(self).show_help == old(self).show_help,
    {
        self.tabs[self.current_tab].modified = false;
        let mut message = "Saved ".to_owned();
        message.append(shown);
        self.set_status_message(message);
    }

    /// Shows the directory tree where it was hidden, and hides it where it
    /// showed.
    pub fn toggle_panel(&mut self)
        ensures
            final(self).show_file_explorer == !old(self).show_file_explorer,
            final(self).tabs == old(self).tabs,
            final(self).current_tab == old(self).current_tab,
            final(self).file_explorer == old(self).file_explorer,
            final(self).show_help == old(self).show_help,
            final(self).status_message == old(self).status_message,
            final(self).status_timer == old(self).status_timer,
    {
        self.show_file_explorer = !self.show_file_explorer;
    }

    /// Hands a key to the editor of the current tab, and marks the tab as
    /// changed. Without a current tab nothing happens.
    pub fn handle_input(&mut self, key: Key)
        requires
            old(self).wf(),
        ensures
            final(self).wf(),
            final(self).tabs@.len() == old(self).tabs@.len(),
            forall|i: int|
                0 <= i < old(self).tabs@.len() && i != old(self).current_tab ==> final(self).tabs@[i] == old(self).tabs@[i],
            old(self).current_tab < old(self).tabs@.len() ==> edited(
                old(self).tabs@[old(self).current_tab as int],
                final(self).tabs@[old(self).current_tab as int],
                key,
            ),
            final(self).current_tab == old(self).current_tab,
            final(self).file_explorer == old(self).file_explorer,
            final(self).show_file_explorer == old(self).show_file_explorer,
            final(self).show_help == old(self).show_help,
            final(self).status_message == old(self).status_message,
            final(self).status_timer == old(self).status_timer,
    {
        if self.current_tab < self.tabs.len() {
            let tab = &mut self.tabs[self.current_tab];
            tab.editor.handle_input(key, &mut tab.content);
            tab.modified = true;
        }
    }

    /// Puts a message on the status line.
    pub fn set_status_message(&mut self, message: String)
        ensures
            final(self).status_message == Some(message),
            final(self).status_timer == 0,
            final(self).tabs == old(self).tabs,
            final(self).current_tab == old(self).current_tab,
            final(self).file_explorer == old(self).file_explorer,
            final(self).show_file_explorer == old(self).show_file_explorer,
            final(self).show_help == old(self).show_help,
    {
        self.status_message = Some(message);
        self.status_timer = 0;
    }

    /// The current tab, if there is one.
    pub fn get_current_tab(&self) -> (tab: Option<&Tab>)
        ensures
            self.current_tab < self.tabs@.len() ==> tab == Some(
                &self.tabs@[self.current_tab as int],
            ),
            self.current_tab >= self.tabs@.len() ==> tab is None,
    {
        if self.current_tab < self.tabs.len() {
            Some(&self.tabs[self.current_tab])
        } else {
            None
        }
    }

    /// Makes `dir` the directory that the tree shows, open, with the
    /// entries read from it.
    pub fn set_directory(&mut self, dir: Entry, entries: Vec<Entry>)
        ensures
            final(self).file_explorer.current_path == dir.path,
            final(self).file_explorer.selected_index == old(self).file_explorer.selected_index,
            final(self).file_explorer.root.path == dir.path,
            final(self).file_explorer.root.name@ == node_name(dir),
            final(self).file_explorer.root.is_dir == dir.is_dir,
            final(self).file_explorer.root.expanded,
            dir.is_dir ==> nodes_of(final(self).file_explorer.root.children@, listing(entries@)),
            !dir.is_dir ==> final(self).file_explorer.root.children@.len() == 0,
            final(self).tabs == old(self).tabs,
            final(self).current_tab == old(self).current_tab,
            final(self).show_file_explorer == old(self).show_file_explorer,
            final(self).show_help == old(self).show_help,
            final(self).status_message == old(self).status_message,
            final(self).status_timer == old(self).status_timer,
    {
        self.file_explorer.refresh(dir, entries);
    }
}

/// `after` is `before` with `key` handed to its editor: the text and the
/// cursor have made the step that the key asks for, the window stands where
/// it stood, and the tab counts as changed.
pub open spec fn edited(before: Tab, after: Tab, key: Key) -> bool {
    &&& after.editor.doc(after.content@) == model::step(before.editor.doc(before.content@), key)
    &&& after.editor.scroll_offset == before.editor.scroll_offset
    &&& after.modified
    &&& after.path == before.path
    &&& after.name == before.name
}

} // verus!
