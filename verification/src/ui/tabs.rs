//! The tab bar: open documents and which one is active.
use vstd::prelude::*;

use crate::paths::{file_name_of, path_eq, path_file_name, same_path};
use crate::text::{decimal, push_decimal};
use vstd::arithmetic::div_mod::{lemma_mod_self_0, lemma_small_mod};

verus! {

/// One tab.
#[derive(Debug, Clone)]
pub struct Tab {
    /// Tab id, unique within its tab bar.
    pub id: usize,
    /// File path; `None` for an unsaved document.
    pub path: Option<String>,
    /// Title shown on the tab.
    pub title: String,
    /// Whether the document has unsaved changes.
    pub modified: bool,
}

/// Whether tab `t` shows the file at path `p`: its path names the same
/// path, compared by components as `Path` compares them.
pub open spec fn shows(t: Tab, p: Seq<char>) -> bool {
    t.path matches Some(q) && same_path(q@, p)
}

/// The title of a new, unsaved document with id `id`: "新規 " and the id.
pub open spec fn untitled(id: nat) -> Seq<char> {
    "新規 "@ + decimal(id)
}

/// The title of a tab for the file at `p`: its file name, or "不明".
pub open spec fn titled(p: Seq<char>) -> Seq<char> {
    match file_name_of(p) {
        Some(n) => n,
        None => "不明"@,
    }
}

/// The title of a tab whose file has name `name`: the name, or "不明"
/// where the path has none.
pub fn title_for(name: Option<String>) -> (s: String)
    ensures
        s@ == match name {
            Some(n) => n@,
            None => "不明"@,
        },
{
    match name {
        Some(n) => n,
        None => "不明".to_owned(),
    }
}

impl Tab {
    /// A tab for a new, unsaved document.
    pub fn new(id: usize) -> (t: Tab)
        ensures
            t.id == id,
            t.path is None,
            t.title@ == untitled(id as nat),
            !t.modified,
    {
        let mut title = "新規 ".to_owned();
        push_decimal(&mut title, id);
        Tab { id, path: None, title, modified: false }
    }

    /// A tab for the file at `path`.
    pub fn from_path(id: usize, path: String) -> (t: Tab)
        ensures
            t.id == id,
            t.path == Some(path),
            t.title@ == titled(path@),
            !t.modified,
    {
        let title = title_for(path_file_name(path.as_str()));
        Tab { id, path: Some(path), title, modified: false }
    }

    /// The title with a "● " mark when the document has unsaved changes.
    pub fn display_title(&self) -> (s: String)
        ensures
            s@ == if self.modified {
                "● "@ + self.title@
            } else {
                self.title@
            },
    {
        if self.modified {
            let mut s = "● ".to_owned();
            s.append(self.title.as_str());
            s
        } else {
            self.title.clone()
        }
    }
}

/// The abstract state of a [`TabBar`].
pub struct TabBarState {
    /// The tabs, left to right.
    pub tabs: Seq<Tab>,
    /// Index of the active tab.
    pub active: int,
    /// The id the next new tab gets.
    pub next_id: int,
}

/// The index of the first tab from `i` on that shows `p` (whose path has
/// the same components as `p`).
pub open spec fn find_from(tabs: Seq<Tab>, p: Seq<char>, i: int) -> Option<int>
    decreases tabs.len() - i,
{
    if i < 0 || i >= tabs.len() {
        None
    } else if shows(tabs[i], p) {
        Some(i)
    } else {
        find_from(tabs, p, i + 1)
    }
}

/// `s` with a new tab `t` appended and made active.
pub open spec fn appended(s: TabBarState, t: Tab) -> TabBarState {
    TabBarState { tabs: s.tabs.push(t), active: s.tabs.len() as int, next_id: s.next_id + 1 }
}

/// The state after opening the file at `p`, and the id of its tab: the
/// first tab that shows `p` becomes active, or else a new tab for `p` is
/// appended and made active.
pub open spec fn opened(s: TabBarState, p: Seq<char>, new_tab: Tab) -> (TabBarState, int) {
    match find_from(s.tabs, p, 0) {
        Some(i) => (TabBarState { active: i, ..s }, s.tabs[i].id as int),
        None => (appended(s, new_tab), s.next_id),
    }
}

/// The state after closing tab `index`, and whether it was closed: the
/// last remaining tab is never closed, nor is an index out of range; the
/// active tab stays the same tab where it can, else the last tab becomes
/// active.
pub open spec fn closed_tab(s: TabBarState, index: int) -> (TabBarState, bool) {
    if s.tabs.len() <= 1 || index < 0 || index >= s.tabs.len() {
        (s, false)
    } else {
        let tabs = s.tabs.remove(index);
        let active = if s.active >= tabs.len() {
            tabs.len() - 1
        } else if s.active > index {
            s.active - 1
        } else {
            s.active
        };
        (TabBarState { tabs, active, ..s }, true)
    }
}

/// The next tab to the right becomes active, wrapping around.
pub open spec fn selected_next(s: TabBarState) -> TabBarState {
    TabBarState { active: (s.active + 1) % (s.tabs.len() as int), ..s }
}

/// The next tab to the left becomes active, wrapping around.
pub open spec fn selected_prev(s: TabBarState) -> TabBarState {
    TabBarState {
        active: if s.active == 0 {
            s.tabs.len() - 1
        } else {
            s.active - 1
        },
        ..s
    }
}

/// Every tab's id is below `next`.
pub open spec fn ids_below(tabs: Seq<Tab>, next: int) -> bool {
    forall|i: int| 0 <= i < tabs.len() ==> (#[trigger] tabs[i]).id < next
}

/// No two tabs share an id.
pub open spec fn ids_unique(tabs: Seq<Tab>) -> bool {
    forall|i: int, j: int| 0 <= i < j < tabs.len() ==> (#[trigger] tabs[i]).id != (#[trigger] tabs[j]).id
}

/// The invariant: there is always a tab, the active index is one of
/// them, and the tab ids are distinct and below the id the next tab gets.
pub open spec fn tab_bar_valid(s: TabBarState) -> bool {
    &&& s.tabs.len() >= 1
    &&& 0 <= s.active < s.tabs.len()
    &&& 0 <= s.next_id <= usize::MAX
    &&& ids_below(s.tabs, s.next_id)
    &&& ids_unique(s.tabs)
}

/// The tab bar.
pub struct TabBar {
    tabs: Vec<Tab>,
    active_index: usize,
    next_id: usize,
}

impl TabBar {
    /// The abstract state.
    pub closed spec fn view(&self) -> TabBarState {
        TabBarState { tabs: self.tabs@, active: self.active_index as int, next_id: self.next_id as int }
    }

    /// The representation invariant.
    pub closed spec fn wf(&self) -> bool {
        tab_bar_valid(self@)
    }

    /// A well-formed tab bar is in a valid state.
    pub proof fn lemma_valid(&self)
        requires
            self.wf(),
        ensures
            tab_bar_valid(self@),
    {
    }

    /// A tab bar with one new, unsaved document (id 1).
    pub fn new() -> (b: TabBar)
        ensures
            b.wf(),
            b@.tabs.len() == 1,
            b@.tabs[0].id == 1,
            b@.tabs[0].path is None,
            b@.tabs[0].title@ == untitled(1),
            !b@.tabs[0].modified,
            b@.active == 0,
            b@.next_id == 2,
    {
        let mut tabs = Vec::new();
        tabs.push(Tab::new(1));
        TabBar { tabs, active_index: 0, next_id: 2 }
    }

    /// Appends a tab for a new, unsaved document, makes it active and
    /// returns its id, which is greater than the id of every tab the bar
    /// held.
    pub fn add_tab(&mut self) -> (id: usize)
        requires
            old(self).wf(),
            old(self)@.next_id < usize::MAX,
        ensures
            id == old(self)@.next_id,
            forall|i: int| 0 <= i < old(self)@.tabs.len() ==> (#[trigger] old(self)@.tabs[i]).id < id,
            final(self)@.tabs.len() == old(self)@.tabs.len() + 1,
            final(self)@.tabs.drop_last() == old(self)@.tabs,
            final(self)@.tabs.last().id == id,
            final(self)@.tabs.last().path is None,
            final(self)@.tabs.last().title@ == untitled(id as nat),
            !final(self)@.tabs.last().modified,
            final(self)@.active == old(self)@.tabs.len(),
            final(self)@.next_id == old(self)@.next_id + 1,
            final(self).wf(),
    {
        let id = self.next_id;
        self.next_id = self.next_id + 1;
        let tab = Tab::new(id);
        self.tabs.push(tab);
        self.active_index = self.tabs.len() - 1;
        proof {
            assert(self@.tabs.drop_last() =~= old(self)@.tabs);
            assert(self@.tabs =~= old(self)@.tabs.push(self@.tabs.last()));
        }
        id
    }

    /// Opens the file at `path`: activates the tab that already shows it,
    /// or appends a new tab for it; returns the tab's id.
    pub fn add_tab_from_path(&mut self, path: String) -> (id: usize)
        requires
            old(self).wf(),
            find_from(old(self)@.tabs, path@, 0) is None ==> old(self)@.next_id < usize::MAX,
        ensures
            final(self).wf(),
            find_from(old(self)@.tabs, path@, 0) is None ==> forall|i: int|
                0 <= i < old(self)@.tabs.len() ==> (#[trigger] old(self)@.tabs[i]).id < id,
            find_from(old(self)@.tabs, path@, 0) is Some ==> (final(self)@, id as int) == opened(
                old(self)@,
                path@,
                final(self)@.tabs.last(),
            ),
            find_from(old(self)@.tabs, path@, 0) is None ==> {
                &&& (final(self)@, id as int) == opened(old(self)@, path@, final(self)@.tabs.last())
                &&& final(self)@.tabs.last().id == id
                &&& final(self)@.tabs.last().path == Some(path)
                &&& final(self)@.tabs.last().title@ == titled(path@)
                &&& !final(self)@.tabs.last().modified
            },
    {
        match self.find_tab_by_path(&path) {
            Some(index) => {
                self.active_index = index;
                self.tabs[index].id
            },
            None => {
                let id = self.next_id;
                self.next_id = self.next_id + 1;
                let tab = Tab::from_path(id, path);
                self.tabs.push(tab);
                self.active_index = self.tabs.len() - 1;
                proof {
                    assert(self@.tabs =~= old(self)@.tabs.push(self@.tabs.last()));
                }
                id
            },
        }
    }

    /// The index of the first tab that shows `path`.
    fn find_tab_by_path(&self, path: &String) -> (r: Option<usize>)
        ensures
            match r {
                Some(i) => i < self@.tabs.len() && find_from(self@.tabs, path@, 0) == Some(i as int),
                None => find_from(self@.tabs, path@, 0) is None,
            },
    {
        let n = self.tabs.len();
        let mut i: usize = 0;
        while i < n
            invariant
                n == self@.tabs.len(),
                i <= n,
                find_from(self@.tabs, path@, 0) == find_from(self@.tabs, path@, i as int),
            decreases n - i,
        {
            let hit = match &self.tabs[i].path {
                Some(p) => path_eq(p.as_str(), path.as_str()),
                None => false,
            };
            if hit {
                return Some(i);
            }
            i = i + 1;
        }
        None
    }

    /// Closes tab `index` and returns whether it was closed. The last
    /// remaining tab is never closed.
    pub fn close_tab(&mut self, index: usize) -> (closed: bool)
        requires
            old(self).wf(),
        ensures
            final(self).wf(),
            (final(self)@, closed) == closed_tab(old(self)@, index as int),
    {
        if self.tabs.len() <= 1 {
            return false;
        }
        if index < self.tabs.len() {
            self.tabs.remove(index);
            if self.active_index >= self.tabs.len() {
                self.active_index = self.tabs.len() - 1;
            } else if self.active_index > index {
                self.active_index = self.active_index - 1;
            }
            true
        } else {
            false
        }
    }

    /// Closes the active tab and returns whether it was closed.
    pub fn close_active_tab(&mut self) -> (closed: bool)
        requires
            old(self).wf(),
        ensures
            final(self).wf(),
            (final(self)@, closed) == closed_tab(old(self)@, old(self)@.active),
    {
        let i = self.active_index;
        self.close_tab(i)
    }

    /// Index of the active tab.
    pub fn active_index(&self) -> (i: usize)
        ensures
            i == self@.active,
    {
        self.active_index
    }

    /// The active tab.
    pub fn active_tab(&self) -> (t: Option<&Tab>)
        ensures
            0 <= self@.active < self@.tabs.len() ==> t == Some(&self@.tabs[self@.active]),
            !(0 <= self@.active < self@.tabs.len()) ==> t is None,
    {
        if self.active_index < self.tabs.len() {
            Some(&self.tabs[self.active_index])
        } else {
            None
        }
    }

    /// The active tab, for changing it in place.
    pub fn active_tab_mut(&mut self) -> (t: Option<&mut Tab>)
        requires
            old(self).wf(),
        ensures
            t matches Some(r) && *r == old(self)@.tabs[old(self)@.active] && final(self)@ == (
            TabBarState { tabs: old(self)@.tabs.update(old(self)@.active, *final(r)), ..old(self)@ })
                && (final(r).id == r.id ==> final(self).wf()),
    {
        let i = self.active_index;
        Some(&mut self.tabs[i])
    }

    /// Makes tab `index` active if it exists.
    pub fn select_tab(&mut self, index: usize)
        requires
            old(self).wf(),
        ensures
            final(self).wf(),
            index < old(self)@.tabs.len() ==> final(self)@ == (TabBarState { active: index as int, ..old(self)@ }),
            index >= old(self)@.tabs.len() ==> final(self)@ == old(self)@,
    {
        if index < self.tabs.len() {
            self.active_index = index;
        }
    }

    /// Makes the next tab to the right active, wrapping around.
    pub fn select_next_tab(&mut self)
        requires
            old(self).wf(),
        ensures
            final(self).wf(),
            final(self)@ == selected_next(old(self)@),
    {
        let n = self.tabs.len();
        if n > 0 {
            self.active_index = (self.active_index + 1) % n;
        }
    }

    /// Makes the next tab to the left active, wrapping around.
    pub fn select_prev_tab(&mut self)
        requires
            old(self).wf(),
        ensures
            final(self).wf(),
            final(self)@ == selected_prev(old(self)@),
    {
        if !self.tabs.is_empty() {
            if self.active_index == 0 {
                self.active_index = self.tabs.len() - 1;
            } else {
                self.active_index = self.active_index - 1;
            }
        }
    }

    /// The number of tabs.
    pub fn len(&self) -> (n: usize)
        ensures
            n == self@.tabs.len(),
    {
        self.tabs.len()
    }

    /// Whether there are no tabs.
    pub fn is_empty(&self) -> (b: bool)
        ensures
            b == (self@.tabs.len() == 0),
    {
        self.tabs.is_empty()
    }

    /// All tabs, left to right.
    pub fn tabs(&self) -> (t: &[Tab])
        ensures
            t@ == self@.tabs,
    {
        self.tabs.as_slice()
    }

    /// Whether any tab has unsaved changes.
    pub fn has_modified_tabs(&self) -> (b: bool)
        ensures
            b == exists|i: int| 0 <= i < self@.tabs.len() && (#[trigger] self@.tabs[i]).modified,
    {
        let n = self.tabs.len();
        let mut i: usize = 0;
        while i < n
            invariant
                n == self@.tabs.len(),
                i <= n,
                forall|j: int| 0 <= j < i ==> !(#[trigger] self@.tabs[j]).modified,
            decreases n - i,
        {
            if self.tabs[i].modified {
                return true;
            }
            i = i + 1;
        }
        false
    }
}

impl Default for TabBar {
    fn default() -> (b: TabBar)
        ensures
            b.wf(),
            b@.tabs.len() == 1,
            b@.active == 0,
            b@.next_id == 2,
    {
        TabBar::new()
    }
}

/// A new tab that takes the counter gets an id no tab of a valid bar has,
/// greater than all of them, and the bar stays valid with ids distinct.
pub proof fn law_new_tab_id_is_fresh(s: TabBarState, t: Tab)
    requires
        tab_bar_valid(s),
        t.id == s.next_id,
        s.next_id < usize::MAX,
    ensures
        forall|i: int| 0 <= i < s.tabs.len() ==> (#[trigger] s.tabs[i]).id < t.id,
        tab_bar_valid(appended(s, t)),
{
    let u = appended(s, t);
    assert forall|i: int, j: int| 0 <= i < j < u.tabs.len() implies (#[trigger] u.tabs[i]).id
        != (#[trigger] u.tabs[j]).id by {
        if j == s.tabs.len() {
            assert(s.tabs[i].id < s.next_id);
        } else {
            assert(s.tabs[i].id != s.tabs[j].id);
        }
    }
}

/// Closing a tab that is not the active one keeps the same tab active, at
/// the index it moved to.
pub proof fn law_close_other_keeps_active(s: TabBarState, index: int)
    requires
        tab_bar_valid(s),
        s.tabs.len() > 1,
        0 <= index < s.tabs.len(),
        index != s.active,
    ensures
        closed_tab(s, index).1,
        closed_tab(s, index).0.tabs[closed_tab(s, index).0.active] == s.tabs[s.active],
        closed_tab(s, index).0.tabs[closed_tab(s, index).0.active].id == s.tabs[s.active].id,
        closed_tab(s, index).0.active == (if s.active > index {
            s.active - 1
        } else {
            s.active
        }),
{
}

/// Each new tab gets an id greater than every id the bar handed out
/// before: a new tab takes the counter, which then goes up by one, and no
/// other change of the bar lowers it.
pub proof fn law_new_ids_grow(s: TabBarState, t1: Tab, t2: Tab, index: int, p: Seq<char>, t: Tab)
    requires
        t1.id == s.next_id,
        t2.id == appended(s, t1).next_id,
    ensures
        t2.id > t1.id,
        appended(appended(s, t1), t2).next_id > t2.id,
        closed_tab(s, index).0.next_id == s.next_id,
        selected_next(s).next_id == s.next_id,
        selected_prev(s).next_id == s.next_id,
        opened(s, p, t).0.next_id >= s.next_id,
{
}

/// The next tab to the right and then the next to the left lead back to
/// the tab that was active.
pub proof fn law_next_then_prev(s: TabBarState)
    requires
        tab_bar_valid(s),
    ensures
        selected_prev(selected_next(s)) == s,
{
    let n = s.tabs.len() as int;
    if s.active + 1 < n {
        lemma_small_mod((s.active + 1) as nat, n as nat);
    } else {
        lemma_mod_self_0(n);
    }
}

/// The next tab to the left and then the next to the right lead back to
/// the tab that was active.
pub proof fn law_prev_then_next(s: TabBarState)
    requires
        tab_bar_valid(s),
    ensures
        selected_next(selected_prev(s)) == s,
{
    let n = s.tabs.len() as int;
    if s.active == 0 {
        lemma_mod_self_0(n);
    } else {
        lemma_small_mod(s.active as nat, n as nat);
    }
}

/// Closing never leaves the bar without tabs, and the active index stays
/// in range.
pub proof fn law_close_keeps_valid(s: TabBarState, index: int)
    requires
        tab_bar_valid(s),
    ensures
        tab_bar_valid(closed_tab(s, index).0),
        closed_tab(s, index).1 ==> closed_tab(s, index).0.tabs.len() == s.tabs.len() - 1,
        s.tabs.len() == 1 ==> !closed_tab(s, index).1,
{
}

proof fn lemma_find_shows(tabs: Seq<Tab>, p: Seq<char>, i: int)
    requires
        0 <= i,
    ensures
        find_from(tabs, p, i) matches Some(k) ==> i <= k < tabs.len() && shows(tabs[k], p)
            && forall|j: int| i <= j < k ==> !shows(#[trigger] tabs[j], p),
        find_from(tabs, p, i) is None ==> forall|j: int| i <= j < tabs.len() ==> !shows(#[trigger] tabs[j], p),
    decreases tabs.len() - i,
{
    if i < tabs.len() && !shows(tabs[i], p) {
        lemma_find_shows(tabs, p, i + 1);
    }
}

proof fn lemma_find_unchanged(a: Seq<Tab>, b: Seq<Tab>, p: Seq<char>, i: int, k: int)
    requires
        0 <= i <= k < a.len(),
        a.len() <= b.len(),
        forall|j: int| 0 <= j <= k ==> a[j] == b[j],
        find_from(a, p, i) == Some(k),
    ensures
        find_from(b, p, i) == Some(k),
{
    lemma_find_shows(a, p, i);
    assert forall|j: int| i <= j < k implies !shows(#[trigger] b[j], p) by {
        assert(a[j] == b[j]);
    }
    assert(a[k] == b[k]);
    lemma_find_none_prefix(b, p, i, k);
}

/// Opening the same file twice gives the same tab: the second time, the
/// tab bar keeps its tabs, the same tab is active, and the same id is
/// returned.
pub proof fn law_open_same_path_twice(s: TabBarState, p: Seq<char>, t1: Tab, t2: Tab)
    requires
        tab_bar_valid(s),
        shows(t1, p),
        t1.id == s.next_id,
    ensures
        ({
            let (s1, id1) = opened(s, p, t1);
            let (s2, id2) = opened(s1, p, t2);
            s2 == s1 && id2 == id1
        }),
{
    lemma_find_shows(s.tabs, p, 0);
    let (s1, id1) = opened(s, p, t1);
    match find_from(s.tabs, p, 0) {
        Some(k) => {
            lemma_find_unchanged(s.tabs, s1.tabs, p, 0, k);
        },
        None => {
            let k = s.tabs.len() as int;
            assert(s1.tabs[k] == t1);
            assert forall|j: int| 0 <= j < k implies !shows(#[trigger] s1.tabs[j], p) by {
                assert(s1.tabs[j] == s.tabs[j]);
            }
            lemma_find_none_prefix(s1.tabs, p, 0, k);
        },
    }
}

proof fn lemma_find_none_prefix(tabs: Seq<Tab>, p: Seq<char>, i: int, k: int)
    requires
        0 <= i <= k < tabs.len(),
        shows(tabs[k], p),
        forall|j: int| i <= j < k ==> !shows(#[trigger] tabs[j], p),
    ensures
        find_from(tabs, p, i) == Some(k),
    decreases k - i,
{
    if i < k {
        lemma_find_none_prefix(tabs, p, i + 1, k);
    }
}

/// What the user did with the tab bar in one frame.
#[derive(Debug, Clone, Copy, PartialEq, Eq, Structural)]
pub enum TabBarAction {
    /// Nothing.
    Nothing,
    /// Select the tab at the index.
    Select(usize),
    /// Close the tab at the index.
    Close(usize),
    /// Close every tab but the one at the index.
    CloseOthers(usize),
    /// Open a new tab.
    New,
}

/// What happened to one tab's button in a frame.
#[derive(Debug, Clone, Copy, PartialEq, Eq, Structural)]
pub struct TabEvents {
    /// It was clicked.
    pub clicked: bool,
    /// "Close" was chosen in its menu.
    pub close: bool,
    /// "Close others" was chosen in its menu.
    pub close_others: bool,
    /// It was clicked with the middle button.
    pub middle_clicked: bool,
}

/// The action so far and the tab to close, after the buttons of `ev`;
/// a later tab's event wins over an earlier one.
pub open spec fn after_tabs(ev: Seq<TabEvents>) -> (TabBarAction, Option<usize>)
    decreases ev.len(),
{
    if ev.len() == 0 {
        (TabBarAction::Nothing, None)
    } else {
        let prev = after_tabs(ev.drop_last());
        let i = (ev.len() - 1) as usize;
        let e = ev.last();
        let a1 = if e.clicked {
            TabBarAction::Select(i)
        } else {
            prev.0
        };
        let c1 = if e.close {
            Some(i)
        } else {
            prev.1
        };
        let a2 = if e.close_others {
            TabBarAction::CloseOthers(i)
        } else {
            a1
        };
        let c2 = if e.middle_clicked {
            Some(i)
        } else {
            c1
        };
        (a2, c2)
    }
}

/// The action of a frame: a new tab if "+" was clicked, else closing the
/// last tab asked to close, else the last selection or "close others".
pub open spec fn tab_bar_result(ev: Seq<TabEvents>, new_clicked: bool) -> TabBarAction {
    let r = after_tabs(ev);
    if new_clicked {
        TabBarAction::New
    } else {
        match r.1 {
            Some(i) => TabBarAction::Close(i),
            None => r.0,
        }
    }
}

/// The action of a frame, from what happened to each tab's button, in tab
/// order, and whether the "+" button was clicked.
pub fn tab_bar_action(events: &Vec<TabEvents>, new_clicked: bool) -> (a: TabBarAction)
    ensures
        a == tab_bar_result(events@, new_clicked),
{
    let mut action = TabBarAction::Nothing;
    let mut close_index: Option<usize> = None;
    let mut i: usize = 0;
    while i < events.len()
        invariant
            i <= events@.len(),
            (action, close_index) == after_tabs(events@.take(i as int)),
        decreases events@.len() - i,
    {
        let e = events[i];
        proof {
            assert(events@.take(i + 1).drop_last() =~= events@.take(i as int));
            assert(events@.take(i + 1).last() == e);
        }
        if e.clicked {
            action = TabBarAction::Select(i);
        }
        if e.close {
            close_index = Some(i);
        }
        if e.close_others {
            action = TabBarAction::CloseOthers(i);
        }
        if e.middle_clicked {
            close_index = Some(i);
        }
        i = i + 1;
    }
    assert(events@.take(events@.len() as int) =~= events@);
    if let Some(index) = close_index {
        action = TabBarAction::Close(index);
    }
    if new_clicked {
        action = TabBarAction::New;
    }
    action
}

} // verus!
