//! The session: the ordered list of tabs, the active tab position, and the
//! allocator for tab ids and terminal handles.
//!
//! A tab id is stable forever and position-independent; the active tab is a
//! *position* into the list, recomputed after every insert, remove and move.
//! Every id-keyed lookup (tab id, terminal handle) fails silently as a
//! no-op when the id is stale, because notification handlers race against
//! user-driven structural changes by design.

use vstd::prelude::*;
use crate::split_pane::{PaneId, SplitContainer, SplitDirection, SplitPane};
use crate::profile::{Profile, get_profile, contains_string, shell_display_name, spec_resolution};
use crate::text::{all_whitespace, is_blank};

verus! {

/// What a new tab is opened with: its initial title, the shell command that
/// backs it, and the short display name of that shell.
pub struct TabSpec {
    pub title: String,
    pub shell_path: String,
    pub shell_name: String,
}

/// A single tab: a stable id, an auto-derived title, an optional user
/// override title, the shell it was opened with, and its pane tree.
pub struct TabItem {
    /// Stable tab id; also the terminal handle of the tab's first pane.
    pub index: usize,
    /// Auto-derived title, updated by the terminal collaborator.
    pub title: String,
    /// Custom title set by the user. When `Some`, auto-title updates are
    /// ignored.
    pub custom_title: Option<String>,
    pub shell_path: String,
    pub shell_name: String,
    pub split_container: SplitContainer,
}

impl TabItem {
    /// The title shown on the tab: the custom title when one is set,
    /// otherwise the auto-derived title.
    pub open spec fn spec_display_title(self) -> Seq<char> {
        match self.custom_title {
            Some(t) => t@,
            None => self.title@,
        }
    }

    /// Returns the display title (custom title if set, otherwise the
    /// auto-derived title).
    pub fn display_title(&self) -> (r: &str)
        ensures
            r@ == self.spec_display_title(),
    {
        match &self.custom_title {
            Some(t) => t.as_str(),
            None => self.title.as_str(),
        }
    }
}

/// The tab a fresh session entry is built from: one leaf pane whose
/// terminal handle equals the tab id.
pub open spec fn spec_fresh_tab(index: usize, tab: TabSpec) -> TabItem {
    TabItem {
        index,
        title: tab.title,
        custom_title: None,
        shell_path: tab.shell_path,
        shell_name: tab.shell_name,
        split_container: SplitContainer {
            root: SplitPane::Terminal { id: PaneId(0), terminal: index },
            active_pane_id: Some(PaneId(0)),
            next_pane_id: 1,
        },
    }
}

/// Position of the first tab with id `tab_index`, if any.
pub open spec fn spec_tab_position(items: Seq<TabItem>, tab_index: usize) -> Option<int>
    decreases items.len(),
{
    if items.len() == 0 {
        None
    } else if items[0].index == tab_index {
        Some(0)
    } else {
        match spec_tab_position(items.drop_first(), tab_index) {
            Some(i) => Some(1 + i),
            None => None,
        }
    }
}

/// Position of the first tab whose pane tree holds the terminal with index
/// `terminal_index`, if any.
pub open spec fn spec_tab_position_by_terminal(items: Seq<TabItem>, terminal_index: usize) -> Option<
    int,
>
    decreases items.len(),
{
    if items.len() == 0 {
        None
    } else if items[0].split_container.root.spec_find_pane_by_terminal(terminal_index) is Some {
        Some(0)
    } else {
        match spec_tab_position_by_terminal(items.drop_first(), terminal_index) {
            Some(i) => Some(1 + i),
            None => None,
        }
    }
}

/// What `spec_tab_position` finds: the first position carrying the id, or
/// nothing anywhere.
pub proof fn lemma_tab_position(items: Seq<TabItem>, tab_index: usize)
    ensures
        match spec_tab_position(items, tab_index) {
            Some(p) => 0 <= p < items.len() && items[p].index == tab_index && forall|q: int|
                0 <= q < p ==> (#[trigger] items[q]).index != tab_index,
            None => forall|q: int|
                0 <= q < items.len() ==> (#[trigger] items[q]).index != tab_index,
        },
    decreases items.len(),
{
    if items.len() > 0 {
        lemma_tab_position(items.drop_first(), tab_index);
        assert forall|q: int| 1 <= q < items.len() implies items.drop_first()[q - 1] == (
        #[trigger] items[q]) by {}
    }
}

/// What `spec_tab_position_by_terminal` finds: the first position whose
/// pane tree holds the handle, or nothing anywhere.
pub proof fn lemma_tab_position_by_terminal(items: Seq<TabItem>, terminal_index: usize)
    ensures
        match spec_tab_position_by_terminal(items, terminal_index) {
            Some(p) => 0 <= p < items.len() && items[p].split_container.root.spec_find_pane_by_terminal(
                terminal_index,
            ) is Some && forall|q: int|
                0 <= q < p ==> (#[trigger] items[q]).split_container.root.spec_find_pane_by_terminal(
                    terminal_index,
                ) is None,
            None => forall|q: int|
                0 <= q < items.len() ==> (
                #[trigger] items[q]).split_container.root.spec_find_pane_by_terminal(
                    terminal_index,
                ) is None,
        },
    decreases items.len(),
{
    if items.len() > 0 {
        lemma_tab_position_by_terminal(items.drop_first(), terminal_index);
        assert forall|q: int| 1 <= q < items.len() implies items.drop_first()[q - 1] == (
        #[trigger] items[q]) by {}
    }
}

/// What a rename stores as the custom title: `None` clears the override,
/// and an all-whitespace string is normalized to `None`, so auto-titles
/// resume; anything else sets the override.
pub open spec fn spec_normalized_title(new_title: Option<String>) -> Option<String> {
    match new_title {
        None => None,
        Some(t) => if all_whitespace(t@) {
            None
        } else {
            Some(t)
        },
    }
}

/// The tab list after renaming the tab with id `tab_index`: only that
/// tab's custom title changes, to the normalized new title; a stale id
/// changes nothing.
pub open spec fn spec_rename(
    items: Seq<TabItem>,
    tab_index: usize,
    new_title: Option<String>,
) -> Seq<TabItem> {
    match spec_tab_position(items, tab_index) {
        None => items,
        Some(p) => items.update(
            p,
            TabItem { custom_title: spec_normalized_title(new_title), ..items[p] },
        ),
    }
}

/// Renaming with an all-whitespace string behaves identically to clearing
/// the custom title.
pub proof fn lemma_rename_blank_equals_clear(
    items: Seq<TabItem>,
    tab_index: usize,
    new_title: String,
)
    requires
        all_whitespace(new_title@),
    ensures
        spec_rename(items, tab_index, Some(new_title)) == spec_rename(items, tab_index, None),
{
}

/// The active position after the tab at `from` moved to `to` (both valid
/// and distinct): the moved tab keeps the selection; a tab strictly between
/// source and destination shifts by one toward the source; anything else
/// is unaffected.
pub open spec fn spec_moved_active(a: int, from: int, to: int) -> int {
    if a == from {
        to
    } else if from < a && a <= to {
        a - 1
    } else if to <= a && a < from {
        a + 1
    } else {
        a
    }
}

/// Where the entry at position `k` of the list after a move came from in
/// the list before it.
pub open spec fn spec_move_source(k: int, from: int, to: int) -> int {
    if k == to {
        from
    } else {
        let k1: int = if k < to {
            k
        } else {
            k - 1
        };
        if k1 < from {
            k1
        } else {
            k1 + 1
        }
    }
}

/// How a session changes when the active pane of the active tab splits in
/// `direction`: a fresh terminal handle (the session's next index) backs
/// the new pane, the tab's pane tree grows by that one leaf, which becomes
/// the tab's active pane, and nothing else moves. With no active tab or no
/// active pane, nothing changes and no handle is spent.
pub open spec fn spec_split_pane_post(
    pre: Session,
    post: Session,
    r: Option<usize>,
    direction: SplitDirection,
) -> bool {
    &&& post.close_on_last_tab == pre.close_on_last_tab
    &&& post.active_tab_ix == pre.active_tab_ix
    &&& match pre.active_tab_ix {
        None => r is None && post.items@ == pre.items@ && post.next_index == pre.next_index,
        Some(ix) => ({
            let c = pre.items@[ix as int].split_container;
            match c.active_pane_id {
                None => r is None && post.items@ == pre.items@ && post.next_index
                    == pre.next_index,
                Some(a) => ({
                    let new_pane = PaneId(c.next_pane_id);
                    &&& r == Some(pre.next_index)
                    &&& post.next_index == pre.next_index + 1
                    &&& post.items@ == pre.items@.update(
                        ix as int,
                        TabItem {
                            split_container: SplitContainer {
                                root: c.root.split_at(
                                    a.0,
                                    direction,
                                    new_pane,
                                    pre.next_index,
                                )->Some_0,
                                active_pane_id: Some(new_pane),
                                next_pane_id: (c.next_pane_id + 1) as usize,
                            },
                            ..pre.items@[ix as int]
                        },
                    )
                }),
            }
        }),
    }
}

/// Outcome of a "process exited" notification for a terminal handle.
pub enum TerminalCloseOutcome {
    /// No tab's pane tree holds the handle: a stale handle, and a no-op.
    NotFound,
    /// The pane was closed within its tab, which keeps its other panes.
    PaneClosed,
    /// The pane was its tab's last leaf, so the whole tab was removed
    /// instead; the payload reports how, exactly as a direct removal would.
    TabClosed(TabRemoval),
}

/// How a session changes when a pane is closed (by terminal handle) within
/// the tab at position `p`, which keeps its other panes: only that tab's
/// pane tree changes, exactly as
/// [`SplitContainer::close_pane_by_terminal_index`] describes.
pub open spec fn spec_pane_closed_at_post(
    pre: Session,
    post: Session,
    p: int,
    terminal_index: usize,
) -> bool {
    let c = pre.items@[p].split_container;
    let pid = c.root.spec_find_pane_by_terminal(terminal_index)->Some_0;
    &&& post.close_on_last_tab == pre.close_on_last_tab
    &&& post.next_index == pre.next_index
    &&& post.active_tab_ix == pre.active_tab_ix
    &&& c.root.remove_leaf(pid.0) matches Some(Some(t2)) && post.items@ == pre.items@.update(
        p,
        TabItem {
            split_container: SplitContainer {
                root: t2,
                active_pane_id: if c.active_pane_id == Some(pid) {
                    Some(t2.leaves()[0].0)
                } else {
                    c.active_pane_id
                },
                next_pane_id: c.next_pane_id,
            },
            ..pre.items@[p]
        },
    )
}

/// Outcome of removing a tab.
pub enum TabRemoval {
    /// The tab id resolved to no tab: a stale id, and a no-op.
    NotFound,
    /// The tab was removed and others remain; the active position was
    /// rebased.
    Removed,
    /// The last tab was removed and the policy says the owning window
    /// should close; the session is left empty.
    CloseWindow,
    /// The last tab was removed and the policy says a fresh default tab
    /// takes its place; `new_index` is its tab id and terminal handle.
    OpenedFresh { new_index: usize },
}

/// The active position after the tab at position `p` was removed and
/// `new_len` tabs remain: removing the active tab selects the same
/// position clamped to the new length; removing a tab before the active
/// one shifts it down by one; removing one after it leaves it unchanged.
pub open spec fn spec_removed_active(a: int, p: int, new_len: int) -> int {
    if a == p {
        if p < new_len {
            p
        } else {
            new_len - 1
        }
    } else if a > p {
        a - 1
    } else {
        a
    }
}

/// How a session changes when the tab at position `p` is removed: with
/// other tabs left, the active position is rebased by
/// [`spec_removed_active`]; with none left, the configured policy either
/// leaves the session empty and asks the window to close, or inserts a
/// fresh default tab.
pub open spec fn spec_remove_at_post(
    pre: Session,
    post: Session,
    r: TabRemoval,
    p: int,
    default_tab: TabSpec,
) -> bool {
    &&& post.close_on_last_tab == pre.close_on_last_tab
    &&& if pre.items@.len() == 1 {
        if pre.close_on_last_tab {
            &&& r is CloseWindow
            &&& post.items@ == pre.items@.remove(p)
            &&& post.active_tab_ix is None
            &&& post.next_index == pre.next_index
        } else {
            &&& r == (TabRemoval::OpenedFresh { new_index: pre.next_index })
            &&& post.items@ == pre.items@.remove(p).push(
                spec_fresh_tab(pre.next_index, default_tab),
            )
            &&& post.active_tab_ix == Some(0usize)
            &&& post.next_index == pre.next_index + 1
        }
    } else {
        let a = pre.active_tab_ix->Some_0 as int;
        &&& r is Removed
        &&& post.items@ == pre.items@.remove(p)
        &&& post.next_index == pre.next_index
        &&& post.active_tab_ix == Some(
            spec_removed_active(a, p, pre.items@.len() - 1) as usize,
        )
    }
}

/// Moving a tab permutes the list: each entry of the result comes from the
/// position that `spec_move_source` names.
proof fn lemma_move_permutation(o: Seq<TabItem>, from: int, to: int)
    requires
        0 <= from < o.len(),
        0 <= to < o.len(),
    ensures
        ({
            let n2 = o.remove(from).insert(to, o[from]);
            &&& n2.len() == o.len()
            &&& forall|k: int|
                0 <= k < n2.len() ==> 0 <= #[trigger] spec_move_source(k, from, to) < o.len()
                    && n2[k] == o[spec_move_source(k, from, to)]
        }),
{
    let m = o.remove(from);
    let n2 = m.insert(to, o[from]);
    o.remove_ensures(from);
    m.insert_ensures(to, o[from]);
    assert forall|k: int|
        0 <= k < n2.len() implies 0 <= #[trigger] spec_move_source(k, from, to) < o.len() && n2[k]
        == o[spec_move_source(k, from, to)] by {
        if k != to {
            let k1: int = if k < to {
                k
            } else {
                k - 1
            };
            assert(n2[k] == m[k1]);
        }
    }
}

/// The session: the ordered tabs, the active tab position, the allocator
/// for tab ids and terminal handles, and the policy applied when the last
/// tab closes.
pub struct Session {
    pub items: Vec<TabItem>,
    /// Active tab *position* (not id); `None` only while the session is
    /// empty.
    pub active_tab_ix: Option<usize>,
    /// Next tab id / terminal handle; ids increase and are never reused.
    pub next_index: usize,
    /// Policy for the removal of the last tab: close the owning window
    /// (true), or auto-insert a fresh default tab (false).
    pub close_on_last_tab: bool,
}

impl Session {
    /// The session invariant: every pane tree is well-formed, tab ids are
    /// unique and below the allocator mark, and the active position, when
    /// set, lies inside the list; it is unset only while the list is empty.
    pub open spec fn wf(self) -> bool {
        &&& forall|i: int|
            0 <= i < self.items.len() ==> (#[trigger] self.items[i]).split_container.wf()
        &&& forall|i: int, j: int|
            #![trigger self.items[i], self.items[j]]
            0 <= i < j < self.items.len() ==> self.items[i].index != self.items[j].index
        &&& forall|i: int|
            0 <= i < self.items.len() ==> (#[trigger] self.items[i]).index < self.next_index
        &&& match self.active_tab_ix {
            Some(ix) => ix < self.items.len(),
            None => self.items.len() == 0,
        }
    }

    /// An empty session with the given last-tab policy. The caller opens
    /// the first tab with [`Session::insert_new_tab`].
    pub fn new(close_on_last_tab: bool) -> (r: Session)
        ensures
            r.items@ == Seq::<TabItem>::empty(),
            r.active_tab_ix is None,
            r.next_index == 0,
            r.close_on_last_tab == close_on_last_tab,
            r.wf(),
    {
        Session { items: Vec::new(), active_tab_ix: None, next_index: 0, close_on_last_tab }
    }

    /// Position of the first tab with id `tab_index`, if any.
    pub fn find_tab_position(&self, tab_index: usize) -> (r: Option<usize>)
        ensures
            r == match spec_tab_position(self.items@, tab_index) {
                Some(p) => Some(p as usize),
                None => None::<usize>,
            },
    {
        proof {
            lemma_tab_position(self.items@, tab_index);
        }
        let n = self.items.len();
        let mut i: usize = 0;
        while i < n
            invariant
                n == self.items.len(),
                i <= n,
                forall|q: int| 0 <= q < i ==> (#[trigger] self.items@[q]).index != tab_index,
                match spec_tab_position(self.items@, tab_index) {
                    Some(p) => 0 <= p < n && self.items@[p].index == tab_index && forall|q: int|
                        0 <= q < p ==> (#[trigger] self.items@[q]).index != tab_index,
                    None => forall|q: int|
                        0 <= q < n ==> (#[trigger] self.items@[q]).index != tab_index,
                },
            decreases n - i,
        {
            if self.items[i].index == tab_index {
                return Some(i);
            }
            i = i + 1;
        }
        None
    }

    /// Appends a fresh tab holding one leaf pane, makes it active, and
    /// returns its tab id, which is also the terminal handle the caller
    /// must open the terminal session under.
    pub fn insert_new_tab(&mut self, tab: TabSpec) -> (r: usize)
        requires
            old(self).wf(),
            old(self).next_index < usize::MAX,
        ensures
            final(self).wf(),
            r == old(self).next_index,
            final(self).items@ == old(self).items@.push(spec_fresh_tab(r, tab)),
            final(self).active_tab_ix == Some(old(self).items.len()),
            final(self).next_index == old(self).next_index + 1,
            final(self).close_on_last_tab == old(self).close_on_last_tab,
    {
        let index = self.next_index;
        self.next_index = self.next_index + 1;
        let item = TabItem {
            index,
            title: tab.title,
            custom_title: None,
            shell_path: tab.shell_path,
            shell_name: tab.shell_name,
            split_container: SplitContainer::new(index),
        };
        self.items.push(item);
        self.active_tab_ix = Some(self.items.len() - 1);
        proof {
            assert(final(self).items@[old(self).items@.len() as int].split_container.wf());
        }
        index
    }

    /// Makes the tab at position `ix` active; a position outside the list
    /// is a no-op.
    pub fn set_active_tab(&mut self, ix: usize)
        requires
            old(self).wf(),
        ensures
            final(self).wf(),
            final(self).items@ == old(self).items@,
            final(self).next_index == old(self).next_index,
            final(self).close_on_last_tab == old(self).close_on_last_tab,
            final(self).active_tab_ix == if ix < old(self).items.len() {
                Some(ix)
            } else {
                old(self).active_tab_ix
            },
    {
        if ix < self.items.len() {
            self.active_tab_ix = Some(ix);
        }
    }

    /// Moves the selection to the next tab, wrapping around at the end.
    pub fn select_next_tab(&mut self)
        requires
            old(self).wf(),
        ensures
            final(self).wf(),
            final(self).items@ == old(self).items@,
            final(self).next_index == old(self).next_index,
            final(self).close_on_last_tab == old(self).close_on_last_tab,
            final(self).active_tab_ix == if old(self).items.len() == 0 {
                old(self).active_tab_ix
            } else {
                ({
                    let a = match old(self).active_tab_ix {
                        Some(a) => a as int,
                        None => 0,
                    };
                    Some((((a + 1) % old(self).items.len() as int)) as usize)
                })
            },
    {
        if self.items.len() > 0 {
            let current: usize = match self.active_tab_ix {
                Some(a) => a,
                None => 0,
            };
            self.active_tab_ix = Some((current + 1) % self.items.len());
        }
    }

    /// Moves the selection to the previous tab, wrapping around at the
    /// start.
    pub fn select_previous_tab(&mut self)
        requires
            old(self).wf(),
        ensures
            final(self).wf(),
            final(self).items@ == old(self).items@,
            final(self).next_index == old(self).next_index,
            final(self).close_on_last_tab == old(self).close_on_last_tab,
            final(self).active_tab_ix == if old(self).items.len() == 0 {
                old(self).active_tab_ix
            } else {
                ({
                    let a = match old(self).active_tab_ix {
                        Some(a) => a as int,
                        None => 0,
                    };
                    if a == 0 {
                        Some((old(self).items.len() - 1) as usize)
                    } else {
                        Some((a - 1) as usize)
                    }
                })
            },
    {
        if self.items.len() > 0 {
            let current: usize = match self.active_tab_ix {
                Some(a) => a,
                None => 0,
            };
            let prev: usize = if current == 0 {
                self.items.len() - 1
            } else {
                current - 1
            };
            self.active_tab_ix = Some(prev);
        }
    }

    /// Terminal handle of the active pane of the active tab, if any.
    pub fn active_terminal(&self) -> (r: Option<usize>)
        requires
            self.wf(),
        ensures
            r == match self.active_tab_ix {
                Some(ix) => match self.items@[ix as int].split_container.active_pane_id {
                    Some(a) => self.items@[ix as int].split_container.root.spec_find_terminal(a.0),
                    None => None::<usize>,
                },
                None => None::<usize>,
            },
    {
        match self.active_tab_ix {
            Some(ix) => self.items[ix].split_container.get_active_terminal(),
            None => None,
        }
    }

    /// Mutable access to the tab at position `i`.
    fn item_mut(items: &mut Vec<TabItem>, i: usize) -> (r: &mut TabItem)
        requires
            i < old(items).len(),
        ensures
            *r == old(items)@[i as int],
            final(items)@ == old(items)@.update(i as int, *final(r)),
    {
        &mut items[i]
    }

    /// Sets or clears the custom title of the tab with id `tab_index`.
    /// `None` clears the override so auto-titles resume; an all-whitespace
    /// string is normalized to `None`; anything else sets the override. A
    /// stale id is a no-op.
    pub fn rename_tab(&mut self, tab_index: usize, new_title: Option<String>)
        requires
            old(self).wf(),
        ensures
            final(self).wf(),
            final(self).items@ == spec_rename(old(self).items@, tab_index, new_title),
            final(self).active_tab_ix == old(self).active_tab_ix,
            final(self).next_index == old(self).next_index,
            final(self).close_on_last_tab == old(self).close_on_last_tab,
    {
        match self.find_tab_position(tab_index) {
            None => {},
            Some(p) => {
                let normalized: Option<String> = match new_title {
                    None => None,
                    Some(t) => if is_blank(t.as_str()) {
                        None
                    } else {
                        Some(t)
                    },
                };
                proof {
                    lemma_tab_position(self.items@, tab_index);
                }
                let item = Self::item_mut(&mut self.items, p);
                item.custom_title = normalized;
            },
        }
    }

    /// Reorders the tab at position `from` to position `to` and rebases the
    /// active position: the moved tab stays active if it was; a tab lying
    /// strictly between the source and destination shifts by one toward the
    /// source; anything else is unaffected. Positions outside the list, or
    /// a move to the same place, change nothing.
    pub fn move_tab(&mut self, from: usize, to: usize)
        requires
            old(self).wf(),
        ensures
            final(self).wf(),
            final(self).next_index == old(self).next_index,
            final(self).close_on_last_tab == old(self).close_on_last_tab,
            if from == to || from >= old(self).items.len() || to >= old(self).items.len() {
                final(self).items@ == old(self).items@ && final(self).active_tab_ix == old(
                    self,
                ).active_tab_ix
            } else {
                ({
                    let a = old(self).active_tab_ix->Some_0 as int;
                    &&& final(self).items@ == old(self).items@.remove(from as int).insert(
                        to as int,
                        old(self).items@[from as int],
                    )
                    &&& final(self).active_tab_ix == Some(
                        spec_moved_active(a, from as int, to as int) as usize,
                    )
                })
            },
    {
        if from == to || from >= self.items.len() || to >= self.items.len() {
            return ;
        }
        let item = self.items.remove(from);
        self.items.insert(to, item);
        match self.active_tab_ix {
            Some(active) => {
                if active == from {
                    self.active_tab_ix = Some(to);
                } else if from < active && active <= to {
                    self.active_tab_ix = Some(active - 1);
                } else if to <= active && active < from {
                    self.active_tab_ix = Some(active + 1);
                }
            },
            None => {},
        }
        proof {
            let o = old(self).items@;
            let n2 = self.items@;
            lemma_move_permutation(o, from as int, to as int);
            assert forall|i: int, j: int|
                #![trigger n2[i], n2[j]]
                0 <= i < j < n2.len() implies n2[i].index != n2[j].index by {
                let si = spec_move_source(i, from as int, to as int);
                let sj = spec_move_source(j, from as int, to as int);
                assert(si != sj);
                assert(n2[i] == o[si] && n2[j] == o[sj]);
            }
        }
    }

    /// Removes the tab with id `tab_index` — by id, never by a position
    /// captured earlier in a callback; a stale id is a no-op. When tabs
    /// remain, the active position is rebased (removing the active tab
    /// selects the same position clamped to the new length; removing a tab
    /// before the active one shifts it down by one; removing one after it
    /// leaves it unchanged). When the last tab goes, the configured policy
    /// decides: close the owning window, or open a fresh tab from
    /// `default_tab`.
    pub fn remove_tab_by(&mut self, tab_index: usize, default_tab: TabSpec) -> (r: TabRemoval)
        requires
            old(self).wf(),
            old(self).next_index < usize::MAX,
        ensures
            final(self).wf(),
            match spec_tab_position(old(self).items@, tab_index) {
                None => r is NotFound && *final(self) == *old(self),
                Some(p) => spec_remove_at_post(*old(self), *final(self), r, p, default_tab),
            },
    {
        match self.find_tab_position(tab_index) {
            None => TabRemoval::NotFound,
            Some(pos) => {
                proof {
                    lemma_tab_position(old(self).items@, tab_index);
                    old(self).items@.remove_ensures(pos as int);
                }
                let _removed = self.items.remove(pos);
                if self.items.len() == 0 {
                    if self.close_on_last_tab {
                        self.active_tab_ix = None;
                        TabRemoval::CloseWindow
                    } else {
                        self.active_tab_ix = None;
                        let new_index = self.insert_new_tab(default_tab);
                        proof {
                            assert(final(self).items@ =~= old(self).items@.remove(
                                pos as int,
                            ).push(spec_fresh_tab(new_index, default_tab)));
                        }
                        TabRemoval::OpenedFresh { new_index }
                    }
                } else {
                    let new_active: usize = match self.active_tab_ix {
                        Some(active_ix) => {
                            if active_ix == pos {
                                if pos < self.items.len() {
                                    pos
                                } else {
                                    self.items.len() - 1
                                }
                            } else if active_ix > pos {
                                active_ix - 1
                            } else {
                                active_ix
                            }
                        },
                        None => 0,
                    };
                    self.active_tab_ix = Some(new_active);
                    TabRemoval::Removed
                }
            },
        }
    }

    /// Removes the active tab, applying the same rebasing and last-tab
    /// policy as [`Session::remove_tab_by`]. With no active tab (an empty
    /// session) this is a no-op.
    pub fn close_active_tab(&mut self, default_tab: TabSpec) -> (r: TabRemoval)
        requires
            old(self).wf(),
            old(self).next_index < usize::MAX,
        ensures
            final(self).wf(),
            match old(self).active_tab_ix {
                None => r is NotFound && *final(self) == *old(self),
                Some(ix) => spec_remove_at_post(
                    *old(self),
                    *final(self),
                    r,
                    ix as int,
                    default_tab,
                ),
            },
    {
        match self.active_tab_ix {
            None => TabRemoval::NotFound,
            Some(active_ix) => {
                let tab_index = self.items[active_ix].index;
                proof {
                    lemma_tab_position(self.items@, tab_index);
                    match spec_tab_position(self.items@, tab_index) {
                        Some(p) => {
                            if p != active_ix as int {
                                assert(self.items@[p].index == self.items@[
                                    active_ix as int
                                ].index);
                            }
                        },
                        None => {
                            assert(self.items@[active_ix as int].index == tab_index);
                        },
                    }
                }
                self.remove_tab_by(tab_index, default_tab)
            },
        }
    }

    /// Splits the active pane of the active tab in the given direction. A
    /// fresh terminal handle is allocated and returned; the caller opens
    /// the terminal session under it. `None`, and no change, when there is
    /// no active tab or its layout has no active pane.
    pub fn split_pane(&mut self, direction: SplitDirection) -> (r: Option<usize>)
        requires
            old(self).wf(),
            old(self).next_index < usize::MAX,
            match old(self).active_tab_ix {
                Some(ix) => old(self).items@[ix as int].split_container.next_pane_id < usize::MAX,
                None => true,
            },
        ensures
            final(self).wf(),
            spec_split_pane_post(*old(self), *final(self), r, direction),
    {
        match self.active_tab_ix {
            None => None,
            Some(ix) => {
                let new_terminal = self.next_index;
                let item = Self::item_mut(&mut self.items, ix);
                let result = item.split_container.split_active_pane(direction, new_terminal);
                proof {
                    if result is None {
                        assert(self.items@ =~= old(self).items@);
                    }
                }
                match result {
                    Some(_new_pane) => {
                        self.next_index = self.next_index + 1;
                        Some(new_terminal)
                    },
                    None => None,
                }
            },
        }
    }

    /// Splits the active pane top-and-bottom.
    pub fn split_pane_horizontal(&mut self) -> (r: Option<usize>)
        requires
            old(self).wf(),
            old(self).next_index < usize::MAX,
            match old(self).active_tab_ix {
                Some(ix) => old(self).items@[ix as int].split_container.next_pane_id < usize::MAX,
                None => true,
            },
        ensures
            final(self).wf(),
            spec_split_pane_post(*old(self), *final(self), r, SplitDirection::Horizontal),
    {
        self.split_pane(SplitDirection::Horizontal)
    }

    /// Splits the active pane side-by-side.
    pub fn split_pane_vertical(&mut self) -> (r: Option<usize>)
        requires
            old(self).wf(),
            old(self).next_index < usize::MAX,
            match old(self).active_tab_ix {
                Some(ix) => old(self).items@[ix as int].split_container.next_pane_id < usize::MAX,
                None => true,
            },
        ensures
            final(self).wf(),
            spec_split_pane_post(*old(self), *final(self), r, SplitDirection::Vertical),
    {
        self.split_pane(SplitDirection::Vertical)
    }

    /// Closes the active pane of the active tab. The last pane of a tab is
    /// never closed here: that is a no-op returning false, and the tab must
    /// be closed through the tab-close path instead.
    pub fn close_active_pane(&mut self) -> (r: bool)
        requires
            old(self).wf(),
        ensures
            final(self).wf(),
            final(self).close_on_last_tab == old(self).close_on_last_tab,
            final(self).active_tab_ix == old(self).active_tab_ix,
            final(self).next_index == old(self).next_index,
            match old(self).active_tab_ix {
                None => !r && final(self).items@ == old(self).items@,
                Some(ix) => ({
                    let c = old(self).items@[ix as int].split_container;
                    &&& r == (c.active_pane_id is Some && c.root.leaf_count() > 1)
                    &&& !r ==> final(self).items@ == old(self).items@
                    &&& r ==> ({
                        let a = c.active_pane_id->Some_0.0;
                        &&& c.root.remove_leaf(a) matches Some(Some(t2)) && final(self).items@
                            == old(self).items@.update(
                            ix as int,
                            TabItem {
                                split_container: SplitContainer {
                                    root: t2,
                                    active_pane_id: Some(t2.leaves()[0].0),
                                    next_pane_id: c.next_pane_id,
                                },
                                ..old(self).items@[ix as int]
                            },
                        )
                    })
                }),
            },
    {
        match self.active_tab_ix {
            None => false,
            Some(ix) => {
                let item = Self::item_mut(&mut self.items, ix);
                let closed = item.split_container.close_active_pane();
                proof {
                    if !closed {
                        assert(self.items@ =~= old(self).items@);
                    }
                }
                closed
            },
        }
    }

    /// Position of the first tab whose pane tree holds the terminal with
    /// index `terminal_index`, if any.
    pub fn find_tab_position_by_terminal(&self, terminal_index: usize) -> (r: Option<usize>)
        ensures
            r == match spec_tab_position_by_terminal(self.items@, terminal_index) {
                Some(p) => Some(p as usize),
                None => None::<usize>,
            },
    {
        proof {
            lemma_tab_position_by_terminal(self.items@, terminal_index);
        }
        let n = self.items.len();
        let mut i: usize = 0;
        while i < n
            invariant
                n == self.items.len(),
                i <= n,
                forall|q: int|
                    0 <= q < i ==> (
                #[trigger] self.items@[q]).split_container.root.spec_find_pane_by_terminal(
                    terminal_index,
                ) is None,
                match spec_tab_position_by_terminal(self.items@, terminal_index) {
                    Some(p) => 0 <= p < n
                        && self.items@[p].split_container.root.spec_find_pane_by_terminal(
                        terminal_index,
                    ) is Some && forall|q: int|
                        0 <= q < p ==> (
                        #[trigger] self.items@[q]).split_container.root.spec_find_pane_by_terminal(
                            terminal_index,
                        ) is None,
                    None => forall|q: int|
                        0 <= q < n ==> (
                        #[trigger] self.items@[q]).split_container.root.spec_find_pane_by_terminal(
                            terminal_index,
                        ) is None,
                },
            decreases n - i,
        {
            if self.items[i].split_container.root.find_pane_by_terminal_index(
                terminal_index,
            ).is_some() {
                return Some(i);
            }
            i = i + 1;
        }
        None
    }

    /// Handles a "process exited" notification for the terminal with index
    /// `terminal_index`: the owning tab is found by handle, never by a
    /// captured position, and the pane is closed within it. When that pane
    /// was the tab's last leaf, the whole tab is removed instead, under the
    /// same policy as [`Session::remove_tab_by`]. A stale handle is a
    /// no-op.
    pub fn handle_terminal_closed(&mut self, terminal_index: usize, default_tab: TabSpec) -> (r:
        TerminalCloseOutcome)
        requires
            old(self).wf(),
            old(self).next_index < usize::MAX,
        ensures
            final(self).wf(),
            match spec_tab_position_by_terminal(old(self).items@, terminal_index) {
                None => r is NotFound && *final(self) == *old(self),
                Some(p) => ({
                    let c = old(self).items@[p].split_container;
                    if c.root.leaf_count() > 1 {
                        &&& r is PaneClosed
                        &&& spec_pane_closed_at_post(
                            *old(self),
                            *final(self),
                            p,
                            terminal_index,
                        )
                    } else {
                        &&& r matches TerminalCloseOutcome::TabClosed(rr)
                            && spec_remove_at_post(
                            *old(self),
                            *final(self),
                            rr,
                            p,
                            default_tab,
                        )
                    }
                }),
            },
    {
        match self.find_tab_position_by_terminal(terminal_index) {
            None => TerminalCloseOutcome::NotFound,
            Some(pos) => {
                proof {
                    lemma_tab_position_by_terminal(old(self).items@, terminal_index);
                }
                let tab_index = self.items[pos].index;
                let item = Self::item_mut(&mut self.items, pos);
                let closed = item.split_container.close_pane_by_terminal_index(terminal_index);
                if closed {
                    TerminalCloseOutcome::PaneClosed
                } else {
                    proof {
                        assert(self.items@ =~= old(self).items@);
                        lemma_tab_position(self.items@, tab_index);
                        match spec_tab_position(self.items@, tab_index) {
                            Some(p2) => {
                                if p2 != pos as int {
                                    assert(self.items@[p2].index == self.items@[
                                        pos as int
                                    ].index);
                                }
                            },
                            None => {
                                assert(self.items@[pos as int].index == tab_index);
                            },
                        }
                    }
                    let rr = self.remove_tab_by(tab_index, default_tab);
                    TerminalCloseOutcome::TabClosed(rr)
                }
            },
        }
    }

    /// Applies a title update arriving from the terminal collaborator: the
    /// owning tab is found by terminal handle; while a custom title is set
    /// the update is ignored, and an unchanged title is left alone. Returns
    /// whether the title changed. A stale handle is a no-op.
    pub fn update_tab_title(&mut self, terminal_index: usize, new_title: String) -> (changed:
        bool)
        requires
            old(self).wf(),
        ensures
            final(self).wf(),
            final(self).active_tab_ix == old(self).active_tab_ix,
            final(self).next_index == old(self).next_index,
            final(self).close_on_last_tab == old(self).close_on_last_tab,
            match spec_tab_position_by_terminal(old(self).items@, terminal_index) {
                None => !changed && final(self).items@ == old(self).items@,
                Some(p) => ({
                    let item = old(self).items@[p];
                    if item.custom_title is Some || item.title@ == new_title@ {
                        !changed && final(self).items@ == old(self).items@
                    } else {
                        changed && final(self).items@ == old(self).items@.update(
                            p,
                            TabItem { title: new_title, ..item },
                        )
                    }
                }),
            },
    {
        match self.find_tab_position_by_terminal(terminal_index) {
            None => false,
            Some(pos) => {
                proof {
                    lemma_tab_position_by_terminal(self.items@, terminal_index);
                }
                let skip = self.items[pos].custom_title.is_some();
                if skip {
                    false
                } else {
                    let same = {
                        let a: &String = &self.items[pos].title;
                        a.eq(&new_title)
                    };
                    if same {
                        proof {
                            assert(self.items@[pos as int].title@ == new_title@);
                        }
                        false
                    } else {
                        let item = Self::item_mut(&mut self.items, pos);
                        item.title = new_title;
                        true
                    }
                }
            },
        }
    }

    /// The data the tab bar renders: each tab's stable id and display
    /// title, in order.
    pub fn list_tabs(&self) -> (r: Vec<(usize, String)>)
        ensures
            r@.len() == self.items@.len(),
            forall|i: int|
                0 <= i < r@.len() ==> (#[trigger] r@[i]).0 == self.items@[i].index && r@[i].1@
                    == self.items@[i].spec_display_title(),
    {
        let n = self.items.len();
        let mut out: Vec<(usize, String)> = Vec::new();
        let mut i: usize = 0;
        while i < n
            invariant
                n == self.items.len(),
                i <= n,
                out@.len() == i,
                forall|q: int|
                    0 <= q < i ==> (#[trigger] out@[q]).0 == self.items@[q].index && out@[q].1@
                        == self.items@[q].spec_display_title(),
            decreases n - i,
        {
            let title = String::from_str(self.items[i].display_title());
            out.push((self.items[i].index, title));
            i = i + 1;
        }
        out
    }

    /// Opens a new tab under an optional profile name, resolving it against
    /// the configured profiles and ssh hosts as
    /// [`crate::profile::spec_resolution`] describes, and returns the new
    /// tab id together with the shell arguments and working directory the
    /// terminal session must be spawned with.
    pub fn insert_new_tab_with_profile(
        &mut self,
        profile_name: Option<&str>,
        working_directory: Option<String>,
        profiles: &Vec<Profile>,
        ssh_hosts: &Vec<String>,
        default_shell: &str,
    ) -> (r: (usize, Vec<String>, Option<String>))
        requires
            old(self).wf(),
            old(self).next_index < usize::MAX,
        ensures
            final(self).wf(),
            r.0 == old(self).next_index,
            final(self).next_index == old(self).next_index + 1,
            final(self).active_tab_ix == Some(old(self).items.len() as usize),
            final(self).close_on_last_tab == old(self).close_on_last_tab,
            final(self).items@.len() == old(self).items@.len() + 1,
            forall|q: int|
                0 <= q < old(self).items@.len() ==> final(self).items@[q] == old(self).items@[q],
            ({
                let t = final(self).items@.last();
                &&& t == spec_fresh_tab(
                    r.0,
                    TabSpec {
                        title: t.title,
                        shell_path: t.shell_path,
                        shell_name: t.shell_name,
                    },
                )
                &&& spec_resolution(
                    match profile_name {
                        Some(n) => Some(n@),
                        None => None,
                    },
                    working_directory,
                    profiles@,
                    ssh_hosts@,
                    default_shell@,
                    t.title@,
                    t.shell_path@,
                    t.shell_name@,
                    r.1@,
                    r.2,
                )
            }),
    {
        let (tab, args, chosen_wd) = resolve_tab_spec(
            profile_name,
            working_directory,
            profiles,
            ssh_hosts,
            default_shell,
        );
        let index = self.insert_new_tab(tab);
        (index, args, chosen_wd)
    }

    /// Duplicates the tab with id `tab_index`: a new tab opens with the
    /// shell the source tab was opened with — "what you'd type to return
    /// here", not a copy of its pane tree — in the working directory the
    /// caller read from the source tab's active terminal. A stale id is a
    /// no-op returning `None`; otherwise the result is the new tab id with
    /// the spawn arguments and working directory, as in
    /// [`Session::insert_new_tab_with_profile`].
    pub fn duplicate_tab(
        &mut self,
        tab_index: usize,
        working_directory: Option<String>,
        profiles: &Vec<Profile>,
        ssh_hosts: &Vec<String>,
        default_shell: &str,
    ) -> (r: Option<(usize, Vec<String>, Option<String>)>)
        requires
            old(self).wf(),
            old(self).next_index < usize::MAX,
        ensures
            final(self).wf(),
            final(self).close_on_last_tab == old(self).close_on_last_tab,
            match spec_tab_position(old(self).items@, tab_index) {
                None => r is None && *final(self) == *old(self),
                Some(p) => ({
                    let rr = r->Some_0;
                    &&& r is Some
                    &&& rr.0 == old(self).next_index
                    &&& final(self).next_index == old(self).next_index + 1
                    &&& final(self).active_tab_ix == Some(old(self).items.len() as usize)
                    &&& final(self).items@.len() == old(self).items@.len() + 1
                    &&& forall|q: int|
                        0 <= q < old(self).items@.len() ==> final(self).items@[q] == old(
                            self,
                        ).items@[q]
                    &&& ({
                        let t = final(self).items@.last();
                        &&& t == spec_fresh_tab(
                            rr.0,
                            TabSpec {
                                title: t.title,
                                shell_path: t.shell_path,
                                shell_name: t.shell_name,
                            },
                        )
                        &&& spec_resolution(
                            Some(old(self).items@[p].shell_path@),
                            working_directory,
                            profiles@,
                            ssh_hosts@,
                            default_shell@,
                            t.title@,
                            t.shell_path@,
                            t.shell_name@,
                            rr.1@,
                            rr.2,
                        )
                    })
                }),
            },
    {
        match self.find_tab_position(tab_index) {
            None => None,
            Some(pos) => {
                proof {
                    lemma_tab_position(self.items@, tab_index);
                }
                let shell_path = self.items[pos].shell_path.clone();
                let (index, args, chosen_wd) = self.insert_new_tab_with_profile(
                    Some(shell_path.as_str()),
                    working_directory,
                    profiles,
                    ssh_hosts,
                    default_shell,
                );
                Some((index, args, chosen_wd))
            },
        }
    }
}

/// Resolves what a new tab opens with from an optional profile name, the
/// configured profiles, the user's ssh hosts and the default shell, as
/// [`crate::profile::spec_resolution`] describes: the tab's title, shell
/// and display name, the arguments the shell is spawned with, and the
/// working directory to spawn it in.
pub fn resolve_tab_spec(
    profile_name: Option<&str>,
    working_directory: Option<String>,
    profiles: &Vec<Profile>,
    ssh_hosts: &Vec<String>,
    default_shell: &str,
) -> (r: (TabSpec, Vec<String>, Option<String>))
    ensures
        spec_resolution(
            match profile_name {
                Some(n) => Some(n@),
                None => None,
            },
            working_directory,
            profiles@,
            ssh_hosts@,
            default_shell@,
            r.0.title@,
            r.0.shell_path@,
            r.0.shell_name@,
            r.1@,
            r.2,
        ),
{
    match profile_name {
        None => {
            let shell_name = shell_display_name(default_shell);
            let tab = TabSpec {
                title: shell_name.clone(),
                shell_path: String::from_str(default_shell),
                shell_name,
            };
            (tab, Vec::new(), working_directory)
        },
        Some(name) => {
            proof {
                crate::profile::lemma_profile_position(profiles@, name@);
            }
            match get_profile(profiles, name) {
                Some(p) => {
                    let program = profiles[p].shell.clone();
                    let chosen_wd: Option<String> = match working_directory {
                        Some(wd) => Some(wd),
                        None => profiles[p].working_directory.clone(),
                    };
                    let tab = TabSpec {
                        title: String::from_str(name),
                        shell_name: shell_display_name(program.as_str()),
                        shell_path: program,
                    };
                    (tab, Vec::new(), chosen_wd)
                },
                None => {
                    if contains_string(ssh_hosts, name) {
                        let mut args: Vec<String> = Vec::new();
                        args.push(String::from_str(name));
                        let tab = TabSpec {
                            title: String::from_str(name),
                            shell_path: String::from_str("ssh"),
                            shell_name: shell_display_name("ssh"),
                        };
                        (tab, args, working_directory)
                    } else {
                        let tab = TabSpec {
                            title: String::from_str(name),
                            shell_path: String::from_str(default_shell),
                            shell_name: shell_display_name(default_shell),
                        };
                        (tab, Vec::new(), working_directory)
                    }
                },
            }
        },
    }
}

} // verus!
