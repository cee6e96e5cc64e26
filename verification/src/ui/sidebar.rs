//! The file explorer: a tree of file entries, directories first, and which
//! directories are expanded.
//!
//! Reading directories is left to the caller, which hands in the entries
//! it found.
use vstd::prelude::*;

use crate::paths::{extension_of, file_name_of, path_eq, path_extension, path_file_name, same_path};
use crate::sort::{arrange, arranged, key_views, stable_order, stably_sorted, Key, SortKey};
use crate::text::{chars_of, lowercase, str_eq, to_lowercase};

verus! {

/// An entry of the file tree.
#[derive(Debug)]
pub struct FileEntry {
    /// The path.
    pub path: String,
    /// The file name.
    pub name: String,
    /// Whether it is a directory.
    pub is_dir: bool,
    /// The entries of a directory once read.
    pub children: Option<Vec<FileEntry>>,
}

/// A hidden name: one that starts with a dot.
pub open spec fn is_hidden(name: Seq<char>) -> bool {
    name.len() > 0 && name[0] == '.'
}

/// The entries of `s` that are not hidden, in order.
pub open spec fn shown(s: Seq<FileEntry>) -> Seq<FileEntry>
    decreases s.len(),
{
    if s.len() == 0 {
        Seq::empty()
    } else if is_hidden(s.last().name@) {
        shown(s.drop_last())
    } else {
        shown(s.drop_last()).push(s.last())
    }
}

/// How an entry sorts: directories first, then by lowercase name.
pub open spec fn entry_key(e: FileEntry) -> Key {
    (if e.is_dir {
        0u8
    } else {
        1u8
    }, lowercase(e.name@))
}

/// The sort keys of entries.
pub open spec fn entry_keys(s: Seq<FileEntry>) -> Seq<Key> {
    s.map_values(|e: FileEntry| entry_key(e))
}

/// The icon for a file with extension `ext`.
pub open spec fn extension_icon(ext: Option<Seq<char>>) -> Seq<char> {
    match ext {
        Some(e) => if e == "rs"@ {
            "🦀"@
        } else if e == "toml"@ {
            "📋"@
        } else if e == "md"@ {
            "📝"@
        } else if e == "json"@ {
            "📊"@
        } else if e == "yml"@ || e == "yaml"@ {
            "⚙️"@
        } else if e == "sh"@ || e == "bash"@ {
            "🐚"@
        } else if e == "py"@ {
            "🐍"@
        } else if e == "js"@ || e == "ts"@ {
            "📜"@
        } else {
            "📄"@
        },
        None => "📄"@,
    }
}

/// The icon of an entry: a folder for a directory, else by extension.
pub open spec fn entry_icon(e: FileEntry) -> Seq<char> {
    if e.is_dir {
        "📁"@
    } else {
        extension_icon(extension_of(e.path@))
    }
}

/// The icon for an entry that is a directory when `is_dir`, else a file
/// with extension `ext`.
pub fn icon_for(is_dir: bool, ext: Option<&str>) -> (s: &'static str)
    ensures
        s@ == if is_dir {
            "📁"@
        } else {
            extension_icon(
                match ext {
                    Some(e) => Some(e@),
                    None => None,
                },
            )
        },
{
    if is_dir {
        return "📁";
    }
    match ext {
        Some(e) => {
            if str_eq(e, "rs") {
                "🦀"
            } else if str_eq(e, "toml") {
                "📋"
            } else if str_eq(e, "md") {
                "📝"
            } else if str_eq(e, "json") {
                "📊"
            } else if str_eq(e, "yml") || str_eq(e, "yaml") {
                "⚙️"
            } else if str_eq(e, "sh") || str_eq(e, "bash") {
                "🐚"
            } else if str_eq(e, "py") {
                "🐍"
            } else if str_eq(e, "js") || str_eq(e, "ts") {
                "📜"
            } else {
                "📄"
            }
        },
        None => "📄",
    }
}

/// No entry that is kept is hidden.
pub proof fn law_shown_has_no_hidden(s: Seq<FileEntry>)
    ensures
        forall|i: int| 0 <= i < shown(s).len() ==> !is_hidden(#[trigger] shown(s)[i].name@),
    decreases s.len(),
{
    if s.len() > 0 {
        law_shown_has_no_hidden(s.drop_last());
    }
}

/// In the children of a directory, every directory comes before every
/// file.
pub proof fn law_directories_first(s: Seq<FileEntry>, order: Seq<usize>)
    requires
        stably_sorted(entry_keys(s), order),
    ensures
        forall|i: int, j: int|
            0 <= i < j < order.len() && (#[trigger] arranged(s, order)[j]).is_dir ==> (
            #[trigger] arranged(s, order)[i]).is_dir,
{
    assert forall|i: int, j: int|
        0 <= i < j < order.len() && (#[trigger] arranged(s, order)[j]).is_dir implies (
        #[trigger] arranged(s, order)[i]).is_dir by {
        let ki = entry_keys(s)[order[i] as int];
        let kj = entry_keys(s)[order[j] as int];
        assert(!crate::sort::key_lt(kj, ki));
    }
}

impl FileEntry {
    /// The entry for `path`, named by its last component; none when the
    /// path has no file name. Whether it is a directory is the caller's
    /// answer.
    pub fn from_path(path: &str, is_dir: bool) -> (r: Option<FileEntry>)
        ensures
            match file_name_of(path@) {
                Some(n) => r matches Some(e) && e.path@ == path@ && e.name@ == n && e.is_dir
                    == is_dir && e.children is None,
                None => r is None,
            },
    {
        match path_file_name(path) {
            Some(name) => Some(FileEntry { path: path.to_owned(), name, is_dir, children: None }),
            None => None,
        }
    }

    /// The icon of the entry.
    pub fn icon(&self) -> (s: &'static str)
        ensures
            s@ == entry_icon(*self),
    {
        match path_extension(self.path.as_str()) {
            Some(e) => icon_for(self.is_dir, Some(e.as_str())),
            None => icon_for(self.is_dir, None),
        }
    }

    /// Takes in the entries read from this directory: hidden ones are left
    /// out and the rest sorted, directories first, then by lowercase name,
    /// keeping the order read among equals. A file's entry is left as it
    /// is.
    pub fn set_children(&mut self, read: Vec<FileEntry>)
        ensures
            !old(self).is_dir ==> *final(self) == *old(self),
            old(self).is_dir ==> {
                &&& final(self).path == old(self).path
                &&& final(self).name == old(self).name
                &&& final(self).is_dir
                &&& final(self).children matches Some(c) && exists|order: Seq<usize>|
                    #[trigger] stably_sorted(entry_keys(shown(read@)), order) && c@ == arranged(
                        shown(read@),
                        order,
                    )
            },
    {
        if !self.is_dir {
            return;
        }
        let ghost input = read@;
        let n = read.len();
        let mut read = read;
        let mut kept: Vec<FileEntry> = Vec::new();
        let mut i: usize = 0;
        while i < n
            invariant
                n == input.len(),
                i <= n,
                read@ == input.skip(i as int),
                kept@ == shown(input.take(i as int)),
            decreases n - i,
        {
            let e = read.remove(0);
            assert(input.skip(i as int).remove(0) =~= input.skip(i + 1));
            assert(input.take(i + 1).drop_last() =~= input.take(i as int));
            assert(input.take(i + 1).last() == e);
            let name_chars = chars_of(e.name.as_str());
            let hidden = name_chars.len() > 0 && name_chars[0] == '.';
            if !hidden {
                kept.push(e);
            }
            i = i + 1;
        }
        assert(input.take(n as int) =~= input);
        let m = kept.len();
        let mut keys: Vec<SortKey> = Vec::new();
        let mut k: usize = 0;
        while k < m
            invariant
                m == kept@.len(),
                k <= m,
                keys@.len() == k,
                forall|j: int| 0 <= j < k ==> #[trigger] keys@[j]@ == entry_key(kept@[j]),
            decreases m - k,
        {
            let e = &kept[k];
            let rank: u8 = if e.is_dir {
                0
            } else {
                1
            };
            let low = to_lowercase(e.name.as_str());
            keys.push(SortKey { rank, text: chars_of(low.as_str()) });
            k = k + 1;
        }
        let order = stable_order(&keys);
        assert(key_views(keys@) =~= entry_keys(kept@));
        let ghost ord = order@;
        let sorted = arrange(kept, &order);
        self.children = Some(sorted);
        assert(stably_sorted(entry_keys(shown(input)), ord));
    }
}

/// `list` holds a path that names the same path as `p`.
pub open spec fn lists_path(list: Seq<Seq<char>>, p: Seq<char>) -> bool {
    exists|i: int| 0 <= i < list.len() && same_path(#[trigger] list[i], p)
}

/// `list` with `p` added at the end, unless it already holds a path that
/// names the same path.
pub open spec fn with_path(list: Seq<Seq<char>>, p: Seq<char>) -> Seq<Seq<char>> {
    if lists_path(list, p) {
        list
    } else {
        list.push(p)
    }
}

/// `list` without the paths that name the same path as `p`.
pub open spec fn without_path(list: Seq<Seq<char>>, p: Seq<char>) -> Seq<Seq<char>>
    decreases list.len(),
{
    if list.len() == 0 {
        Seq::empty()
    } else if same_path(list.last(), p) {
        without_path(list.drop_last(), p)
    } else {
        without_path(list.drop_last(), p).push(list.last())
    }
}

/// The texts of a list of paths.
pub open spec fn path_texts(v: Seq<String>) -> Seq<Seq<char>> {
    v.map_values(|s: String| s@)
}

/// The index of a path in `list` that names the same path as `p`.
fn find_path(list: &Vec<String>, p: &str) -> (r: Option<usize>)
    ensures
        match r {
            Some(i) => i < list@.len() && same_path(list@[i as int]@, p@),
            None => !lists_path(path_texts(list@), p@),
        },
{
    let mut i: usize = 0;
    while i < list.len()
        invariant
            i <= list@.len(),
            forall|j: int| 0 <= j < i ==> !same_path(#[trigger] list@[j]@, p@),
        decreases list@.len() - i,
    {
        if path_eq(list[i].as_str(), p) {
            return Some(i);
        }
        i = i + 1;
    }
    assert forall|j: int| 0 <= j < path_texts(list@).len() implies !same_path(
        #[trigger] path_texts(list@)[j],
        p@,
    ) by {
        assert(path_texts(list@)[j] == list@[j]@);
    }
    None
}

/// Adds `p` to `list` unless it holds a path naming the same path.
fn add_path(list: &mut Vec<String>, p: &str)
    ensures
        path_texts(final(list)@) == with_path(path_texts(old(list)@), p@),
{
    match find_path(list, p) {
        Some(i) => {
            assert(path_texts(list@)[i as int] == list@[i as int]@);
        },
        None => {
            list.push(p.to_owned());
            assert(path_texts(list@) =~= path_texts(old(list)@).push(p@));
        },
    }
}

/// Drops from `list` every path that names the same path as `p`.
fn drop_path(list: &mut Vec<String>, p: &str)
    ensures
        path_texts(final(list)@) == without_path(path_texts(old(list)@), p@),
{
    let ghost texts = path_texts(list@);
    let mut kept: Vec<String> = Vec::new();
    let mut i: usize = 0;
    while i < list.len()
        invariant
            i <= list@.len(),
            texts == path_texts(list@),
            path_texts(kept@) == without_path(texts.take(i as int), p@),
        decreases list@.len() - i,
    {
        assert(texts.take(i + 1).drop_last() =~= texts.take(i as int));
        assert(texts.take(i + 1).last() == list@[i as int]@);
        if !path_eq(list[i].as_str(), p) {
            let q = list[i].clone();
            kept.push(q);
            assert(path_texts(kept@) =~= without_path(texts.take(i as int), p@).push(
                texts[i as int],
            ));
        }
        i = i + 1;
    }
    assert(texts.take(list@.len() as int) =~= texts);
    *list = kept;
}

/// The abstract state of a [`FileExplorer`].
pub struct ExplorerView {
    /// Whether the explorer is shown.
    pub visible: bool,
    /// The selected file's path, if any.
    pub selected: Option<Seq<char>>,
    /// The paths of the expanded directories, in the order they were
    /// expanded.
    pub expanded: Seq<Seq<char>>,
    /// Whether a root directory is set.
    pub has_root: bool,
}

/// The file explorer's state: the tree, the expanded directories and the
/// selected file. Paths are compared by their components, as `Path`
/// compares them.
pub struct FileExplorer {
    root: Option<FileEntry>,
    expanded: Vec<String>,
    selected: Option<String>,
    visible: bool,
}

impl FileExplorer {
    /// The abstract state.
    pub closed spec fn view(&self) -> ExplorerView {
        ExplorerView {
            visible: self.visible,
            selected: match self.selected {
                Some(p) => Some(p@),
                None => None,
            },
            expanded: path_texts(self.expanded@),
            has_root: self.root is Some,
        }
    }

    /// A shown explorer with no root, nothing expanded and nothing
    /// selected.
    pub fn new() -> (e: FileExplorer)
        ensures
            e@ == (ExplorerView {
                visible: true,
                selected: None,
                expanded: Seq::empty(),
                has_root: false,
            }),
    {
        let e = FileExplorer { root: None, expanded: Vec::new(), selected: None, visible: true };
        assert(path_texts(e.expanded@) =~= Seq::empty());
        e
    }

    /// Sets the root directory, read by the caller, and expands it.
    pub fn set_root(&mut self, root: FileEntry)
        ensures
            final(self)@ == (ExplorerView {
                expanded: with_path(old(self)@.expanded, root.path@),
                has_root: true,
                ..old(self)@
            }),
            final(self).root() == Some(root),
    {
        add_path(&mut self.expanded, root.path.as_str());
        self.root = Some(root);
    }

    /// The root entry, if set.
    pub closed spec fn root(&self) -> Option<FileEntry> {
        self.root
    }

    /// The root entry, if set.
    pub fn root_entry(&self) -> (r: Option<&FileEntry>)
        ensures
            match self.root() {
                Some(e) => r matches Some(x) && *x == e,
                None => r is None,
            },
    {
        match &self.root {
            Some(e) => Some(e),
            None => None,
        }
    }

    /// Takes the tree out, to be read again and put back with
    /// [`FileExplorer::put_root`]; the expanded and selected paths stay.
    pub fn take_root(&mut self) -> (r: Option<FileEntry>)
        ensures
            r == old(self).root(),
            final(self)@ == (ExplorerView { has_root: false, ..old(self)@ }),
    {
        self.root.take()
    }

    /// Puts a tree back.
    pub fn put_root(&mut self, root: FileEntry)
        ensures
            final(self).root() == Some(root),
            final(self)@ == (ExplorerView { has_root: true, ..old(self)@ }),
    {
        self.root = Some(root);
    }

    /// Shows a hidden explorer and hides a shown one.
    pub fn toggle(&mut self)
        ensures
            final(self)@ == (ExplorerView { visible: !old(self)@.visible, ..old(self)@ }),
            final(self).root() == old(self).root(),
    {
        self.visible = !self.visible;
    }

    /// Whether the explorer is shown.
    pub fn is_visible(&self) -> (b: bool)
        ensures
            b == self@.visible,
    {
        self.visible
    }

    /// The selected file's path, if any.
    pub fn selected(&self) -> (r: Option<&str>)
        ensures
            match self@.selected {
                Some(p) => r matches Some(s) && s@ == p,
                None => r is None,
            },
    {
        match &self.selected {
            Some(p) => Some(p.as_str()),
            None => None,
        }
    }

    /// Selects the file at `path`.
    pub fn select(&mut self, path: String)
        ensures
            final(self)@ == (ExplorerView { selected: Some(path@), ..old(self)@ }),
            final(self).root() == old(self).root(),
    {
        self.selected = Some(path);
    }

    /// Whether the directory at `path` is expanded: an expanded path names
    /// the same path.
    pub fn is_expanded(&self, path: &str) -> (b: bool)
        ensures
            b == lists_path(self@.expanded, path@),
    {
        match find_path(&self.expanded, path) {
            Some(i) => {
                assert(path_texts(self.expanded@)[i as int] == self.expanded@[i as int]@);
                true
            },
            None => false,
        }
    }

    /// Expands or collapses the directory at `path`.
    pub fn set_expanded(&mut self, path: &str, expand: bool)
        ensures
            final(self)@ == (ExplorerView {
                expanded: if expand {
                    with_path(old(self)@.expanded, path@)
                } else {
                    without_path(old(self)@.expanded, path@)
                },
                ..old(self)@
            }),
            final(self).root() == old(self).root(),
    {
        if expand {
            add_path(&mut self.expanded, path);
        } else {
            drop_path(&mut self.expanded, path);
        }
    }
}

impl Default for FileExplorer {
    fn default() -> (e: FileExplorer)
        ensures
            e@ == (ExplorerView {
                visible: true,
                selected: None,
                expanded: Seq::empty(),
                has_root: false,
            }),
    {
        FileExplorer::new()
    }
}

} // verus!
