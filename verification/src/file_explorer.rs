//! The directory tree beside the editor: nodes that load their children when
//! they are first opened, and a selection among the files that show.
//!
//! Nothing here touches the file system. Whoever reads a directory hands its
//! entries in, and gets back what to show.

use std::path::PathBuf;
use std::time::SystemTime;
use vstd::prelude::*;
use crate::order::{kept, node_name, sort_entries, sorted, Entry};

verus! {

/// A file or a directory in the tree.
#[derive(Debug)]
pub struct FileNode {
    pub path: PathBuf,
    pub name: String,
    pub is_dir: bool,
    pub children: Vec<FileNode>,
    pub expanded: bool,
}

/// The tree, the directory it shows, and which of the files that show is
/// selected.
pub struct FileExplorer {
    pub root: FileNode,
    pub current_path: PathBuf,
    pub selected_index: usize,
}

/// What the file system knows of a file.
#[derive(Debug)]
pub struct FileInfo {
    pub size: u64,
    pub modified: SystemTime,
    pub is_readonly: bool,
}

/// Why the explorer could not open a path.
#[derive(Debug, Clone, Copy, PartialEq, Eq, Structural)]
pub enum ExplorerError {
    /// The path is neither a file nor a directory.
    PathDoesNotExist,
}

/// What sort of thing a path leads to, and for a directory what it holds.
pub enum Target {
    File,
    Directory { entry: Entry, entries: Vec<Entry> },
    Missing,
}

/// `n` is the closed node without children that stands for `e`.
pub open spec fn is_node_of(n: FileNode, e: Entry) -> bool {
    &&& n.path == e.path
    &&& n.name@ == node_name(e)
    &&& n.is_dir == e.is_dir
    &&& n.children@.len() == 0
    &&& !n.expanded
}

/// The nodes stand for the entries, one for one.
pub open spec fn nodes_of(nodes: Seq<FileNode>, entries: Seq<Entry>) -> bool {
    &&& nodes.len() == entries.len()
    &&& forall|i: int| 0 <= i < nodes.len() ==> is_node_of(#[trigger] nodes[i], entries[i])
}

/// What a directory shows of the entries read from it: those that are
/// listed, in order.
pub open spec fn listing(entries: Seq<Entry>) -> Seq<Entry> {
    sorted(kept(entries))
}

/// The sign before a node's name.
pub open spec fn icon(node: FileNode) -> Seq<char> {
    if node.is_dir {
        if node.expanded {
            "ðŸ“‚ "@
        } else {
            "ðŸ“ "@
        }
    } else {
        "ðŸ“„ "@
    }
}

/// The white space before a node at `depth`: two spaces for each level.
pub open spec fn indent(depth: nat) -> Seq<char>
    decreases depth,
{
    if depth == 0 {
        Seq::empty()
    } else {
        indent((depth - 1) as nat) + "  "@
    }
}

/// The lines that show a node and, where it is open, all below it.
pub open spec fn display_lines(node: FileNode, lead: Seq<char>) -> Seq<Seq<char>>
    decreases node, node.children@.len() + 1,
{
    seq![lead + icon(node) + node.name@] + if node.expanded {
        children_lines(node, lead + "  "@, node.children@.len())
    } else {
        Seq::empty()
    }
}

/// The lines that show the first `k` children of a node.
pub open spec fn children_lines(node: FileNode, lead: Seq<char>, k: nat) -> Seq<Seq<char>>
    decreases node, k,
{
    if k == 0 || k > node.children@.len() {
        Seq::empty()
    } else {
        children_lines(node, lead, (k - 1) as nat) + display_lines(node.children@[k - 1], lead)
    }
}

/// The files that show: a file itself, and the files that show below an
/// open directory.
pub open spec fn visible_files(node: FileNode) -> Seq<PathBuf>
    decreases node, node.children@.len() + 1,
{
    if !node.is_dir {
        seq![node.path]
    } else if node.expanded {
        children_files(node, node.children@.len())
    } else {
        Seq::empty()
    }
}

/// The files that show among the first `k` children of a node.
pub open spec fn children_files(node: FileNode, k: nat) -> Seq<PathBuf>
    decreases node, k,
{
    if k == 0 || k > node.children@.len() {
        Seq::empty()
    } else {
        children_files(node, (k - 1) as nat) + visible_files(node.children@[k - 1])
    }
}

/// The texts of some strings.
pub open spec fn texts(lines: Seq<String>) -> Seq<Seq<char>> {
    Seq::new(lines.len(), |i: int| lines[i]@)
}

/// `b` is a copy of `a`: the same path, name and state, and children that
/// are copies one for one.
pub open spec fn same_tree(a: FileNode, b: FileNode) -> bool
    decreases a,
{
    &&& b.path == a.path
    &&& b.name@ == a.name@
    &&& b.is_dir == a.is_dir
    &&& b.expanded == a.expanded
    &&& b.children@.len() == a.children@.len()
    &&& forall|i: int|
        0 <= i < a.children@.len() ==> same_tree(#[trigger] a.children@[i], b.children@[i])
}

impl Clone for FileNode {
    fn clone(&self) -> (copy: Self)
        ensures
            same_tree(*self, copy),
        decreases self,
    {
        let mut children: Vec<FileNode> = Vec::new();
        let mut k: usize = 0;
        while k < self.children.len()
            invariant
                0 <= k <= self.children@.len(),
                children@.len() == k,
                forall|i: int|
                    0 <= i < k ==> same_tree(#[trigger] self.children@[i], children@[i]),
            decreases self.children@.len() - k,
        {
            children.push(self.children[k].clone());
            k += 1;
        }
        FileNode {
            path: self.path.clone(),
            name: self.name.clone(),
            is_dir: self.is_dir,
            children,
            expanded: self.expanded,
        }
    }
}

impl FileNode {
    /// The closed node, without children, that stands for `entry`.
    pub fn new(entry: Entry) -> (node: Self)
        ensures
            is_node_of(node, entry),
    {
        let name = match entry.file_name {
            Some(name) => name,
            None => "Unknown".to_owned(),
        };
        Self { path: entry.path, name, is_dir: entry.is_dir, children: Vec::new(), expanded: false }
    }

    /// Whether the node is a directory whose entries have not been handed
    /// in yet, or held nothing to list.
    pub fn needs_children(&self) -> (needed: bool)
        ensures
            needed == (self.is_dir && self.children@.len() == 0),
    {
        self.is_dir && self.children.is_empty()
    }

    /// Gives a directory without children the entries read from it: its
    /// children are then the nodes of those that are listed, in order. A
    /// file, and a directory that has children, stay as they are.
    pub fn load_children(&mut self, entries: Vec<Entry>)
        ensures
            final(self).path == old(self).path,
            final(self).name == old(self).name,
            final(self).is_dir == old(self).is_dir,
            final(self).expanded == old(self).expanded,
            old(self).is_dir && old(self).children@.len() == 0 ==> nodes_of(
                final(self).children@,
                listing(entries@),
            ),
            !(old(self).is_dir && old(self).children@.len() == 0) ==> final(self).children@ == old(self).children@,
    {
        if !self.is_dir || !self.children.is_empty() {
            return ;
        }
        let listed = sort_entries(entries);
        let ghost given = listed@;
        let mut children: Vec<FileNode> = Vec::new();
        for entry in it: listed
            invariant
                it.seq() == given,
                nodes_of(children@, given.take(it.index() as int)),
        {
            children.push(FileNode::new(entry));
        }
        assert(given.take(given.len() as int) =~= given);
        self.children = children;
    }

    /// Closes an open directory, and opens a closed one, which then takes
    /// the entries as [`FileNode::load_children`] does. A file stays as it
    /// is.
    pub fn toggle_expanded(&mut self, entries: Vec<Entry>)
        ensures
            final(self).path == old(self).path,
            final(self).name == old(self).name,
            final(self).is_dir == old(self).is_dir,
            final(self).expanded == if old(self).is_dir {
                !old(self).expanded
            } else {
                old(self).expanded
            },
            old(self).is_dir && !old(self).expanded && old(self).children@.len() == 0 ==> nodes_of(
                final(self).children@,
                listing(entries@),
            ),
            !(old(self).is_dir && !old(self).expanded && old(self).children@.len() == 0) ==> final(self).children@ == old(self).children@,
    {
        if self.is_dir {
            if self.expanded {
                self.expanded = false;
            } else {
                self.load_children(entries);
                self.expanded = true;
            }
        }
    }

    /// The lines that show this node at `depth` and, where it is open, all
    /// below it, each level two spaces further in.
    pub fn get_display_lines(&self, depth: usize) -> (lines: Vec<String>)
        ensures
            texts(lines@) == display_lines(*self, indent(depth as nat)),
    {
        let mut lead = String::new();
        let mut i: usize = 0;
        while i < depth
            invariant
                0 <= i <= depth,
                lead@ == indent(i as nat),
            decreases depth - i,
        {
            lead.append("  ");
            i += 1;
        }
        let mut lines: Vec<String> = Vec::new();
        self.push_display_lines(&lead, &mut lines);
        assert(texts(lines@) =~= display_lines(*self, lead@));
        lines
    }

    /// Appends the lines that show this node behind `lead` and, where it is
    /// open, all below it.
    fn push_display_lines(&self, lead: &String, lines: &mut Vec<String>)
        ensures
            texts(final(lines)@) == texts(old(lines)@) + display_lines(*self, lead@),
        decreases self,
    {
        let prefix = if self.is_dir {
            if self.expanded {
                "ðŸ“‚ "
            } else {
                "ðŸ“ "
            }
        } else {
            "ðŸ“„ "
        };
        let mut line = lead.clone();
        line.append(prefix);
        line.append(self.name.as_str());
        let ghost first = line@;
        lines.push(line);
        assert(texts(lines@) =~= texts(old(lines)@) + seq![first]);
        if self.expanded {
            let mut inner = lead.clone();
            inner.append("  ");
            let mut k: usize = 0;
            while k < self.children.len()
                invariant
                    0 <= k <= self.children@.len(),
                    inner@ == lead@ + "  "@,
                    texts(lines@) == texts(old(lines)@) + seq![first] + children_lines(
                        *self,
                        inner@,
                        k as nat,
                    ),
                decreases self.children@.len() - k,
            {
                self.children[k].push_display_lines(&inner, lines);
                k += 1;
            }
        }
    }
}

impl FileExplorer {
    /// An explorer on the directory `current_dir`, nothing read yet.
    pub fn new(current_dir: Entry) -> (explorer: Self)
        ensures
            is_node_of(explorer.root, current_dir),
            explorer.current_path == current_dir.path,
            explorer.selected_index == 0,
    {
        let current_path = current_dir.path.clone();
        Self { root: FileNode::new(current_dir), current_path, selected_index: 0 }
    }

    /// Shows the directory `current` anew, open, with the entries read from
    /// it.
    pub fn refresh(&mut self, current: Entry, entries: Vec<Entry>)
        ensures
            final(self).current_path == current.path,
            final(self).selected_index == old(self).selected_index,
            final(self).root.path == current.path,
            final(self).root.name@ == node_name(current),
            final(self).root.is_dir == current.is_dir,
            final(self).root.expanded,
            current.is_dir ==> nodes_of(final(self).root.children@, listing(entries@)),
            !current.is_dir ==> final(self).root.children@.len() == 0,
    {
        self.current_path = current.path.clone();
        self.root = FileNode::new(current);
        self.root.load_children(entries);
        self.root.expanded = true;
    }

    /// The files that show in the tree, from the top down.
    pub fn get_all_files(&self) -> (files: Vec<PathBuf>)
        ensures
            files@ == visible_files(self.root),
    {
        let mut files: Vec<PathBuf> = Vec::new();
        self.collect_files(&self.root, &mut files);
        files
    }

    /// Appends the files that show at and below `node`.
    fn collect_files(&self, node: &FileNode, files: &mut Vec<PathBuf>)
        ensures
            final(files)@ == old(files)@ + visible_files(*node),
        decreases node,
    {
        if !node.is_dir {
            files.push(node.path.clone());
            assert(files@ =~= old(files)@ + visible_files(*node));
        } else if node.expanded {
            let mut k: usize = 0;
            assert(files@ =~= old(files)@ + children_files(*node, 0));
            while k < node.children.len()
                invariant
                    0 <= k <= node.children@.len(),
                    files@ == old(files)@ + children_files(*node, k as nat),
                decreases node.children@.len() - k,
            {
                self.collect_files(&node.children[k], files);
                k += 1;
                assert(files@ =~= old(files)@ + children_files(*node, k as nat));
            }
        } else {
            assert(files@ =~= old(files)@ + visible_files(*node));
        }
    }

    /// The lines that show the tree.
    pub fn get_display_lines(&self) -> (lines: Vec<String>)
        ensures
            texts(lines@) == display_lines(self.root, indent(0)),
    {
        self.root.get_display_lines(0)
    }

    /// Selects the `index`-th of the files that show and returns its path;
    /// where there is no such file, selects nothing new.
    pub fn select_file(&mut self, index: usize) -> (selected: Option<PathBuf>)
        ensures
            final(self).root == old(self).root,
            final(self).current_path == old(self).current_path,
            index < visible_files(old(self).root).len() ==> selected == Some(
                visible_files(old(self).root)[index as int],
            ) && final(self).selected_index == index,
            index >= visible_files(old(self).root).len() ==> selected is None && final(self).selected_index == old(self).selected_index,
    {
        let files = self.get_all_files();
        if index < files.len() {
            self.selected_index = index;
            Some(files[index].clone())
        } else {
            None
        }
    }

    /// The path of the selected file, where the selection names one of the
    /// files that show.
    pub fn get_selected_file(&self) -> (selected: Option<PathBuf>)
        ensures
            self.selected_index < visible_files(self.root).len() ==> selected == Some(
                visible_files(self.root)[self.selected_index as int],
            ),
            self.selected_index >= visible_files(self.root).len() ==> selected is None,
    {
        let files = self.get_all_files();
        if self.selected_index < files.len() {
            Some(files[self.selected_index].clone())
        } else {
            None
        }
    }

    /// Moves the selection among the files that show: forward for a
    /// positive `direction`, back for any other, and round the ends. Where
    /// no file shows, nothing moves.
    pub fn move_selection(&mut self, direction: i32)
        ensures
            final(self).root == old(self).root,
            final(self).current_path == old(self).current_path,
            final(self).selected_index == moved_selection(
                old(self).selected_index as int,
                direction as int,
                visible_files(old(self).root).len() as int,
            ),
    {
        let files = self.get_all_files();
        if files.is_empty() {
            return ;
        }
        proof {
            let n = files@.len() as int;
            vstd::arithmetic::div_mod::lemma_add_mod_noop(self.selected_index as int, 1, n);
            if n > 1 {
                vstd::arithmetic::div_mod::lemma_small_mod(1, n as nat);
            }
        }
        let new_index = if direction > 0 {
            (self.selected_index % files.len() + 1) % files.len()
        } else {
            if self.selected_index == 0 {
                files.len() - 1
            } else {
                self.selected_index - 1
            }
        };
        self.selected_index = new_index;
    }

    /// Opens what a path leads to. A file is left to the caller to open,
    /// and nothing changes here. A directory becomes the one that is shown,
    /// with the first file selected. Anything else is an error.
    pub fn open_file(&mut self, target: Target) -> (res: Result<(), ExplorerError>)
        ensures
            target is Missing <==> res is Err,
            res matches Err(e) ==> e == ExplorerError::PathDoesNotExist,
            !(target is Directory) ==> *final(self) == *old(self),
            target matches Target::Directory { entry, entries } ==> {
                &&& final(self).current_path == entry.path
                &&& final(self).selected_index == 0
                &&& final(self).root.path == entry.path
                &&& final(self).root.name@ == node_name(entry)
                &&& final(self).root.is_dir == entry.is_dir
                &&& final(self).root.expanded
                &&& entry.is_dir ==> nodes_of(final(self).root.children@, listing(entries@))
                &&& !entry.is_dir ==> final(self).root.children@.len() == 0
            },
    {
        match target {
            Target::File => Ok(()),
            Target::Directory { entry, entries } => {
                self.refresh(entry, entries);
                self.selected_index = 0;
                Ok(())
            },
            Target::Missing => Err(ExplorerError::PathDoesNotExist),
        }
    }
}

impl ExplorerError {
    /// The error in words.
    pub fn message(&self) -> (text: String)
        ensures
            text@ == "Path does not exist"@,
    {
        "Path does not exist".to_owned()
    }
}

/// Where the selection stands after a move among `count` files.
pub open spec fn moved_selection(selected: int, direction: int, count: int) -> int {
    if count == 0 {
        selected
    } else if direction > 0 {
        (selected + 1) % count
    } else if selected == 0 {
        count - 1
    } else {
        selected - 1
    }
}

} // verus!
