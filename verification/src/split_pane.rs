//! The pane tree of a single tab: a binary tree of terminal panes.
//!
//! A pane is either a leaf owning one terminal-session handle, or a split
//! holding a direction, a size ratio and two child panes. The tree always
//! has at least one leaf. Splitting replaces a leaf in place by a split
//! whose first child is the original leaf; closing a leaf splices its
//! sibling into the place of the parent split, so no split node is ever
//! left with a missing child.

use vstd::prelude::*;

verus! {

/// Ratios are stored in thousandths: a ratio of `r` means the first child
/// takes `r / 1000` of the available space.
pub const SPLIT_RATIO_UNIT: u32 = 1000;

/// The ratio a fresh split starts with: an even half.
pub const DEFAULT_SPLIT_RATIO: u32 = 500;

/// Direction of a split: two panes above one another, or side by side.
#[derive(Debug, Clone, Copy, PartialEq, Eq, Structural)]
pub enum SplitDirection {
    Horizontal,
    Vertical,
}

/// Identifier of a pane, unique within one tab's lifetime and never reused.
#[derive(Debug, Clone, Copy, PartialEq, Eq, Structural)]
pub struct PaneId(pub usize);

/// A node of the pane tree. A `Terminal` leaf holds the stable index of its
/// terminal session; a `Split` owns its two children exclusively.
pub enum SplitPane {
    Terminal { id: PaneId, terminal: usize },
    Split {
        direction: SplitDirection,
        first: Box<SplitPane>,
        second: Box<SplitPane>,
        /// Share of the first child, in thousandths (see [`SPLIT_RATIO_UNIT`]).
        ratio: u32,
    },
}

/// Result of [`SplitPane::close_pane`].
///
/// `closed` says whether the pane was found and removed. When the removed
/// pane was an immediate leaf child of the root of the call, `replacement`
/// carries the surviving sibling and the receiver is left unchanged: the
/// caller must splice the replacement into the receiver's place. In every
/// other case `replacement` is `None`; if `closed` is set the surgery has
/// already happened inside the receiver, unless the receiver itself was the
/// target leaf (a tree cannot become empty, so the caller must close the
/// whole tab instead).
pub struct ClosePaneResult {
    pub replacement: Option<SplitPane>,
    pub closed: bool,
}

impl SplitPane {
    /// Number of leaves in the tree; always at least one.
    pub open spec fn leaf_count(self) -> nat
        decreases self,
    {
        match self {
            SplitPane::Terminal { .. } => 1,
            SplitPane::Split { first, second, .. } => first.leaf_count() + second.leaf_count(),
        }
    }

    /// The leaves in pre-order, left to right, as (pane id, terminal handle).
    pub open spec fn leaves(self) -> Seq<(PaneId, usize)>
        decreases self,
    {
        match self {
            SplitPane::Terminal { id, terminal } => seq![(id, terminal)],
            SplitPane::Split { first, second, .. } => first.leaves() + second.leaves(),
        }
    }

    /// Whether some leaf carries the pane id `pid`.
    pub open spec fn contains_pane(self, pid: usize) -> bool
        decreases self,
    {
        match self {
            SplitPane::Terminal { id, .. } => id.0 == pid,
            SplitPane::Split { first, second, .. } => first.contains_pane(pid)
                || second.contains_pane(pid),
        }
    }

    /// Terminal handle of the first leaf (pre-order) with pane id `pid`.
    pub open spec fn spec_find_terminal(self, pid: usize) -> Option<usize>
        decreases self,
    {
        match self {
            SplitPane::Terminal { id, terminal } => if id.0 == pid {
                Some(terminal)
            } else {
                None
            },
            SplitPane::Split { first, second, .. } => if first.spec_find_terminal(pid) is Some {
                first.spec_find_terminal(pid)
            } else {
                second.spec_find_terminal(pid)
            },
        }
    }

    /// Pane id of the first leaf (pre-order) whose terminal handle is `terminal`.
    pub open spec fn spec_find_pane_by_terminal(self, terminal: usize) -> Option<PaneId>
        decreases self,
    {
        match self {
            SplitPane::Terminal { id, terminal: t } => if t == terminal {
                Some(id)
            } else {
                None
            },
            SplitPane::Split { first, second, .. } => if first.spec_find_pane_by_terminal(
                terminal,
            ) is Some {
                first.spec_find_pane_by_terminal(terminal)
            } else {
                second.spec_find_pane_by_terminal(terminal)
            },
        }
    }

    /// Structural well-formedness: every split ratio lies strictly between
    /// zero and one.
    pub open spec fn wf(self) -> bool
        decreases self,
    {
        match self {
            SplitPane::Terminal { .. } => true,
            SplitPane::Split { first, second, ratio, .. } => 0 < ratio < SPLIT_RATIO_UNIT
                && first.wf() && second.wf(),
        }
    }

    /// The tree after splitting the first leaf (pre-order) with pane id
    /// `pid`: that leaf is replaced in place by a split whose first child is
    /// the original leaf and whose second child is a fresh leaf, at the
    /// default ratio. `None` when no leaf carries `pid`.
    pub open spec fn split_at(
        self,
        pid: usize,
        direction: SplitDirection,
        new_id: PaneId,
        new_terminal: usize,
    ) -> Option<SplitPane>
        decreases self,
    {
        match self {
            SplitPane::Terminal { id, terminal } => if id.0 == pid {
                Some(
                    SplitPane::Split {
                        direction,
                        first: Box::new(SplitPane::Terminal { id, terminal }),
                        second: Box::new(
                            SplitPane::Terminal { id: new_id, terminal: new_terminal },
                        ),
                        ratio: DEFAULT_SPLIT_RATIO,
                    },
                )
            } else {
                None
            },
            SplitPane::Split { direction: d, first, second, ratio } => match (*first).split_at(
                pid,
                direction,
                new_id,
                new_terminal,
            ) {
                Some(f2) => Some(
                    SplitPane::Split { direction: d, first: Box::new(f2), second, ratio },
                ),
                None => match (*second).split_at(pid, direction, new_id, new_terminal) {
                    Some(s2) => Some(
                        SplitPane::Split { direction: d, first, second: Box::new(s2), ratio },
                    ),
                    None => None,
                },
            },
        }
    }

    /// The outcome of removing the first leaf (pre-order) with pane id `pid`:
    /// `None` when no leaf carries `pid`; `Some(None)` when the tree is that
    /// single leaf itself (nothing remains); `Some(Some(t))` when the leaf
    /// was removed and `t` is what is left — the parent split is replaced by
    /// the surviving sibling, and nothing else changes.
    pub open spec fn remove_leaf(self, pid: usize) -> Option<Option<SplitPane>>
        decreases self,
    {
        match self {
            SplitPane::Terminal { id, .. } => if id.0 == pid {
                Some(None)
            } else {
                None
            },
            SplitPane::Split { direction, first, second, ratio } => match (*first).remove_leaf(
                pid,
            ) {
                Some(None) => Some(Some(*second)),
                Some(Some(f2)) => Some(
                    Some(SplitPane::Split { direction, first: Box::new(f2), second, ratio }),
                ),
                None => match (*second).remove_leaf(pid) {
                    Some(None) => Some(Some(*first)),
                    Some(Some(s2)) => Some(
                        Some(SplitPane::Split { direction, first, second: Box::new(s2), ratio }),
                    ),
                    None => None,
                },
            },
        }
    }

    /// Whether `pid` is the id of an immediate leaf child of this node.
    pub open spec fn has_immediate_leaf(self, pid: usize) -> bool {
        match self {
            SplitPane::Terminal { .. } => false,
            SplitPane::Split { first, second, .. } => {
                ||| (*first matches SplitPane::Terminal { id, .. } && id.0 == pid)
                ||| (*second matches SplitPane::Terminal { id, .. } && id.0 == pid)
            },
        }
    }

    /// A leaf pane wrapping one terminal handle.
    pub fn new_terminal(id: PaneId, terminal: usize) -> (r: Self)
        ensures
            r == (SplitPane::Terminal { id, terminal }),
    {
        SplitPane::Terminal { id, terminal }
    }

    /// An exact structural copy of the tree.
    pub fn deep_clone(&self) -> (r: Self)
        ensures
            r == *self,
        decreases *self,
    {
        match self {
            SplitPane::Terminal { id, terminal } => SplitPane::Terminal {
                id: *id,
                terminal: *terminal,
            },
            SplitPane::Split { direction, first, second, ratio } => SplitPane::Split {
                direction: *direction,
                first: Box::new(first.deep_clone()),
                second: Box::new(second.deep_clone()),
                ratio: *ratio,
            },
        }
    }

    /// Structural equality of two trees.
    pub fn tree_equals(&self, other: &SplitPane) -> (r: bool)
        ensures
            r == (*self == *other),
        decreases *self,
    {
        match (self, other) {
            (
                SplitPane::Terminal { id: id_a, terminal: t_a },
                SplitPane::Terminal { id: id_b, terminal: t_b },
            ) => id_a.0 == id_b.0 && t_a == t_b,
            (
                SplitPane::Split { direction: d_a, first: f_a, second: s_a, ratio: r_a },
                SplitPane::Split { direction: d_b, first: f_b, second: s_b, ratio: r_b },
            ) => *d_a == *d_b && *r_a == *r_b && f_a.tree_equals(f_b) && s_a.tree_equals(s_b),
            _ => false,
        }
    }

    /// Number of leaves in the tree.
    pub fn count_panes(&self) -> (r: usize)
        requires
            self.leaf_count() <= usize::MAX,
        ensures
            r == self.leaf_count(),
        decreases *self,
    {
        match self {
            SplitPane::Terminal { .. } => 1,
            SplitPane::Split { first, second, .. } => first.count_panes() + second.count_panes(),
        }
    }

    /// Terminal handle of the pane with id `pane_id`, if present.
    pub fn find_terminal(&self, pane_id: PaneId) -> (r: Option<usize>)
        ensures
            r == self.spec_find_terminal(pane_id.0),
        decreases *self,
    {
        match self {
            SplitPane::Terminal { id, terminal } => if id.0 == pane_id.0 {
                Some(*terminal)
            } else {
                None
            },
            SplitPane::Split { first, second, .. } => match first.find_terminal(pane_id) {
                Some(t) => Some(t),
                None => second.find_terminal(pane_id),
            },
        }
    }

    /// Pane id of the leaf holding the terminal with index `terminal_index`,
    /// if present.
    pub fn find_pane_by_terminal_index(&self, terminal_index: usize) -> (r: Option<PaneId>)
        ensures
            r == self.spec_find_pane_by_terminal(terminal_index),
        decreases *self,
    {
        match self {
            SplitPane::Terminal { id, terminal } => if *terminal == terminal_index {
                Some(*id)
            } else {
                None
            },
            SplitPane::Split { first, second, .. } => match first.find_pane_by_terminal_index(
                terminal_index,
            ) {
                Some(id) => Some(id),
                None => second.find_pane_by_terminal_index(terminal_index),
            },
        }
    }

    /// Splits the first leaf (pre-order) with id `pane_id` in place: the
    /// leaf becomes a split whose first child is the original leaf and whose
    /// second child is a fresh leaf with id `next_id` wrapping
    /// `new_terminal`, at the default ratio. Returns false, and changes
    /// nothing, when no leaf carries `pane_id`.
    pub fn split(
        &mut self,
        pane_id: PaneId,
        direction: SplitDirection,
        new_terminal: usize,
        next_id: PaneId,
    ) -> (r: bool)
        ensures
            r == (old(self).split_at(pane_id.0, direction, next_id, new_terminal) is Some),
            match old(self).split_at(pane_id.0, direction, next_id, new_terminal) {
                Some(t) => *final(self) == t,
                None => *final(self) == *old(self),
            },
        decreases *old(self),
    {
        match self {
            SplitPane::Terminal { id, terminal } => {
                if id.0 == pane_id.0 {
                    let old_id = *id;
                    let old_terminal = *terminal;
                    *self = SplitPane::Split {
                        direction,
                        first: Box::new(
                            SplitPane::Terminal { id: old_id, terminal: old_terminal },
                        ),
                        second: Box::new(
                            SplitPane::Terminal { id: next_id, terminal: new_terminal },
                        ),
                        ratio: DEFAULT_SPLIT_RATIO,
                    };
                    true
                } else {
                    false
                }
            },
            SplitPane::Split { first, second, .. } => {
                if first.split(pane_id, direction, new_terminal, next_id) {
                    true
                } else {
                    second.split(pane_id, direction, new_terminal, next_id)
                }
            },
        }
    }

    /// Whether `pane_id` is the id of an immediate leaf child of this node.
    pub fn is_immediate_leaf(&self, pane_id: PaneId) -> (r: bool)
        ensures
            r == self.has_immediate_leaf(pane_id.0),
    {
        match self {
            SplitPane::Terminal { .. } => false,
            SplitPane::Split { first, second, .. } => {
                let in_first = match &**first {
                    SplitPane::Terminal { id, .. } => id.0 == pane_id.0,
                    _ => false,
                };
                let in_second = match &**second {
                    SplitPane::Terminal { id, .. } => id.0 == pane_id.0,
                    _ => false,
                };
                in_first || in_second
            },
        }
    }

    /// The tree that removing the first leaf (pre-order) with id `pane_id`
    /// leaves behind, exactly as [`SplitPane::remove_leaf`] describes it;
    /// the receiver is not changed.
    fn removed(&self, pane_id: PaneId) -> (r: Option<Option<SplitPane>>)
        ensures
            r == self.remove_leaf(pane_id.0),
        decreases *self,
    {
        match self {
            SplitPane::Terminal { id, .. } => {
                if id.0 == pane_id.0 {
                    Some(None)
                } else {
                    None
                }
            },
            SplitPane::Split { direction, first, second, ratio } => {
                match first.removed(pane_id) {
                    Some(None) => Some(Some(second.deep_clone())),
                    Some(Some(f2)) => Some(
                        Some(
                            SplitPane::Split {
                                direction: *direction,
                                first: Box::new(f2),
                                second: Box::new(second.deep_clone()),
                                ratio: *ratio,
                            },
                        ),
                    ),
                    None => match second.removed(pane_id) {
                        Some(None) => Some(Some(first.deep_clone())),
                        Some(Some(s2)) => Some(
                            Some(
                                SplitPane::Split {
                                    direction: *direction,
                                    first: Box::new(first.deep_clone()),
                                    second: Box::new(s2),
                                    ratio: *ratio,
                                },
                            ),
                        ),
                        None => None,
                    },
                }
            },
        }
    }

    /// Removes the first leaf (pre-order) with id `pane_id`, splicing the
    /// surviving sibling into the place of the parent split (see
    /// [`ClosePaneResult`] for how the outcome is reported). When `pane_id`
    /// is absent the tree is unchanged and `closed` is false.
    pub fn close_pane(&mut self, pane_id: PaneId) -> (r: ClosePaneResult)
        ensures
            r.closed == (old(self).remove_leaf(pane_id.0) is Some),
            match old(self).remove_leaf(pane_id.0) {
                None => r.replacement is None && *final(self) == *old(self),
                Some(None) => r.replacement is None && *final(self) == *old(self),
                Some(Some(t)) => if old(self).has_immediate_leaf(pane_id.0) {
                    r.replacement == Some(t) && *final(self) == *old(self)
                } else {
                    r.replacement is None && *final(self) == t
                },
            },
    {
        let immediate = self.is_immediate_leaf(pane_id);
        match self.removed(pane_id) {
            None => ClosePaneResult { replacement: None, closed: false },
            Some(None) => ClosePaneResult { replacement: None, closed: true },
            Some(Some(t)) => {
                if immediate {
                    // The target is an immediate leaf child: hand the
                    // surviving subtree to the caller, which splices it
                    // into this node's place.
                    ClosePaneResult { replacement: Some(t), closed: true }
                } else {
                    // The target lies deeper: the surgery is complete
                    // within this subtree.
                    *self = t;
                    ClosePaneResult { replacement: None, closed: true }
                }
            },
        }
    }

    /// Recursive structural well-formedness check: every split ratio lies
    /// strictly between zero and one. (A split with a missing child is not
    /// even representable: both children are always owned.)
    pub fn check_wf(&self) -> (r: bool)
        ensures
            r == self.wf(),
        decreases *self,
    {
        match self {
            SplitPane::Terminal { .. } => true,
            SplitPane::Split { first, second, ratio, .. } => 0 < *ratio && *ratio
                < SPLIT_RATIO_UNIT && first.check_wf() && second.check_wf(),
        }
    }

    /// All leaves in pre-order, left to right, as (pane id, terminal handle).
    pub fn all_terminals(&self) -> (r: Vec<(PaneId, usize)>)
        ensures
            r@ == self.leaves(),
        decreases *self,
    {
        match self {
            SplitPane::Terminal { id, terminal } => {
                let mut v: Vec<(PaneId, usize)> = Vec::new();
                v.push((*id, *terminal));
                v
            },
            SplitPane::Split { first, second, .. } => {
                let mut v = first.all_terminals();
                let mut w = second.all_terminals();
                v.append(&mut w);
                v
            },
        }
    }
}

/// No two leaves of the sequence carry the same pane id.
pub open spec fn leaf_ids_unique(s: Seq<(PaneId, usize)>) -> bool {
    forall|i: int, j: int|
        #![trigger s[i], s[j]]
        0 <= i < j < s.len() ==> s[i].0.0 != s[j].0.0
}

/// Every pane id of the sequence lies below `bound`.
pub open spec fn leaf_ids_below(s: Seq<(PaneId, usize)>, bound: usize) -> bool {
    forall|i: int| 0 <= i < s.len() ==> (#[trigger] s[i]).0.0 < bound
}

/// A split node has at least two leaves.
pub proof fn lemma_split_node_leaf_count(t: SplitPane)
    ensures
        t is Split ==> t.leaf_count() >= 2,
{
    match t {
        SplitPane::Terminal { .. } => {},
        SplitPane::Split { first, second, .. } => {
            lemma_leaf_count_leaves(*first);
            lemma_leaf_count_leaves(*second);
        },
    }
}

/// A successful lookup by terminal handle returns the id of a leaf that is
/// present in the tree, holding that very handle.
pub proof fn lemma_find_pane_by_terminal_contains(t: SplitPane, terminal: usize)
    ensures
        match t.spec_find_pane_by_terminal(terminal) {
            Some(p) => t.contains_pane(p.0) && t.spec_find_terminal(p.0) is Some,
            None => true,
        },
    decreases t,
{
    match t {
        SplitPane::Terminal { .. } => {},
        SplitPane::Split { first, second, .. } => {
            lemma_find_pane_by_terminal_contains(*first, terminal);
            lemma_find_pane_by_terminal_contains(*second, terminal);
            lemma_find_terminal_contains(*first, terminal);
            match first.spec_find_pane_by_terminal(terminal) {
                Some(p) => {
                    lemma_find_terminal_contains(*first, p.0);
                },
                None => {
                    match second.spec_find_pane_by_terminal(terminal) {
                        Some(p) => {
                            lemma_find_terminal_contains(*first, p.0);
                            lemma_find_terminal_contains(*second, p.0);
                        },
                        None => {},
                    }
                },
            }
        },
    }
}

/// The leaf count is the length of the pre-order leaf sequence, and a tree
/// always has at least one leaf.
pub proof fn lemma_leaf_count_leaves(t: SplitPane)
    ensures
        t.leaf_count() == t.leaves().len(),
        t.leaves().len() >= 1,
    decreases t,
{
    match t {
        SplitPane::Terminal { .. } => {},
        SplitPane::Split { first, second, .. } => {
            lemma_leaf_count_leaves(*first);
            lemma_leaf_count_leaves(*second);
        },
    }
}

/// A tree contains a pane id exactly when some entry of its leaf sequence
/// carries that id.
pub proof fn lemma_contains_pane_leaves(t: SplitPane, x: usize)
    ensures
        t.contains_pane(x) == exists|i: int|
            0 <= i < t.leaves().len() && (#[trigger] t.leaves()[i]).0.0 == x,
    decreases t,
{
    match t {
        SplitPane::Terminal { id, .. } => {
            if id.0 == x {
                assert(t.leaves()[0].0.0 == x);
            }
        },
        SplitPane::Split { first, second, .. } => {
            lemma_contains_pane_leaves(*first, x);
            lemma_contains_pane_leaves(*second, x);
            let fl = first.leaves();
            let sl = second.leaves();
            if first.contains_pane(x) {
                let i = choose|i: int| 0 <= i < fl.len() && (#[trigger] fl[i]).0.0 == x;
                assert(t.leaves()[i].0.0 == x);
            } else if second.contains_pane(x) {
                let i = choose|i: int| 0 <= i < sl.len() && (#[trigger] sl[i]).0.0 == x;
                assert(t.leaves()[fl.len() + i].0.0 == x);
            } else {
                assert forall|i: int|
                    0 <= i < t.leaves().len() implies (#[trigger] t.leaves()[i]).0.0 != x by {
                    if i < fl.len() {
                        assert(t.leaves()[i] == fl[i]);
                    } else {
                        assert(t.leaves()[i] == sl[i - fl.len()]);
                    }
                }
            }
        },
    }
}

/// A pane id can be looked up exactly when the tree contains it.
pub proof fn lemma_find_terminal_contains(t: SplitPane, x: usize)
    ensures
        (t.spec_find_terminal(x) is Some) == t.contains_pane(x),
    decreases t,
{
    match t {
        SplitPane::Terminal { .. } => {},
        SplitPane::Split { first, second, .. } => {
            lemma_find_terminal_contains(*first, x);
            lemma_find_terminal_contains(*second, x);
        },
    }
}

/// A split finds its target exactly when the tree contains the pane id.
pub proof fn lemma_split_at_found(
    t: SplitPane,
    pid: usize,
    direction: SplitDirection,
    new_id: PaneId,
    new_terminal: usize,
)
    ensures
        (t.split_at(pid, direction, new_id, new_terminal) is Some) == t.contains_pane(pid),
    decreases t,
{
    match t {
        SplitPane::Terminal { .. } => {},
        SplitPane::Split { first, second, .. } => {
            lemma_split_at_found(*first, pid, direction, new_id, new_terminal);
            lemma_split_at_found(*second, pid, direction, new_id, new_terminal);
        },
    }
}

/// Splitting keeps the leaf sequence intact but for one new entry: the
/// fresh leaf appears immediately after the leaf that was split, and the
/// result is well-formed whenever the input was. The returned index is the
/// position of the leaf that was split.
pub proof fn lemma_split_at_leaves(
    t: SplitPane,
    pid: usize,
    direction: SplitDirection,
    new_id: PaneId,
    new_terminal: usize,
) -> (i: int)
    requires
        t.split_at(pid, direction, new_id, new_terminal) is Some,
    ensures
        ({
            let t2 = t.split_at(pid, direction, new_id, new_terminal)->Some_0;
            &&& 0 <= i < t.leaves().len()
            &&& t.leaves()[i].0.0 == pid
            &&& t2.leaves() == t.leaves().insert(i + 1, (new_id, new_terminal))
            &&& t.wf() ==> t2.wf()
        }),
    decreases t,
{
    let t2 = t.split_at(pid, direction, new_id, new_terminal)->Some_0;
    match t {
        SplitPane::Terminal { id, terminal } => {
            reveal_with_fuel(SplitPane::leaves, 3);
            reveal_with_fuel(SplitPane::wf, 3);
            assert(t2.leaves() =~= t.leaves().insert(1, (new_id, new_terminal)));
            0
        },
        SplitPane::Split { direction: d, first, second, ratio } => {
            let fl = first.leaves();
            let sl = second.leaves();
            if first.split_at(pid, direction, new_id, new_terminal) is Some {
                let i = lemma_split_at_leaves(*first, pid, direction, new_id, new_terminal);
                let f2 = first.split_at(pid, direction, new_id, new_terminal)->Some_0;
                assert(t2.leaves() =~= (fl + sl).insert(i + 1, (new_id, new_terminal)));
                i
            } else {
                let j = lemma_split_at_leaves(*second, pid, direction, new_id, new_terminal);
                let s2 = second.split_at(pid, direction, new_id, new_terminal)->Some_0;
                assert(t2.leaves() =~= (fl + sl).insert(fl.len() + j + 1, (new_id, new_terminal)));
                assert(t.leaves()[fl.len() + j].0.0 == pid);
                fl.len() + j
            }
        },
    }
}

/// Removal finds its target exactly when the tree contains the pane id.
pub proof fn lemma_remove_leaf_found(t: SplitPane, pid: usize)
    ensures
        (t.remove_leaf(pid) is Some) == t.contains_pane(pid),
    decreases t,
{
    match t {
        SplitPane::Terminal { .. } => {},
        SplitPane::Split { first, second, .. } => {
            lemma_remove_leaf_found(*first, pid);
            lemma_remove_leaf_found(*second, pid);
        },
    }
}

/// Closing a leaf splices exactly one entry out of the pre-order leaf
/// sequence and touches nothing else; well-formedness is preserved. The
/// returned index is the position of the removed leaf.
pub proof fn lemma_remove_leaf_leaves(t: SplitPane, pid: usize) -> (i: int)
    requires
        t.remove_leaf(pid) matches Some(Some(_)),
    ensures
        ({
            let t2 = t.remove_leaf(pid)->Some_0->Some_0;
            &&& 0 <= i < t.leaves().len()
            &&& t.leaves()[i].0.0 == pid
            &&& t2.leaves() == t.leaves().remove(i)
            &&& t.wf() ==> t2.wf()
        }),
    decreases t,
{
    let t2 = t.remove_leaf(pid)->Some_0->Some_0;
    match t {
        SplitPane::Terminal { .. } => 0,
        SplitPane::Split { direction, first, second, ratio } => {
            let fl = first.leaves();
            let sl = second.leaves();
            match (*first).remove_leaf(pid) {
                Some(None) => {
                    // The first child is the removed leaf itself.
                    assert(t2.leaves() =~= (fl + sl).remove(0));
                    0
                },
                Some(Some(f2)) => {
                    let i = lemma_remove_leaf_leaves(*first, pid);
                    assert(t2.leaves() =~= (fl + sl).remove(i));
                    i
                },
                None => match (*second).remove_leaf(pid) {
                    Some(None) => {
                        // The second child is the removed leaf itself.
                        assert(t2.leaves() =~= (fl + sl).remove(fl.len() as int));
                        fl.len() as int
                    },
                    Some(Some(s2)) => {
                        let j = lemma_remove_leaf_leaves(*second, pid);
                        assert(t2.leaves() =~= (fl + sl).remove(fl.len() + j));
                        assert(t.leaves()[fl.len() + j].0.0 == pid);
                        fl.len() + j
                    },
                    None => 0,
                },
            }
        },
    }
}

/// Closing an existing pane decreases the leaf count by exactly one;
/// closing an absent pane finds nothing, so the tree stays unchanged. When
/// the whole tree is the single targeted leaf, nothing remains and the
/// caller closes the tab instead.
pub proof fn lemma_close_decreases_leaf_count(t: SplitPane, pid: usize)
    ensures
        (t.remove_leaf(pid) is Some) == t.contains_pane(pid),
        match t.remove_leaf(pid) {
            None => true,
            Some(None) => t.leaf_count() == 1,
            Some(Some(t2)) => t2.leaf_count() + 1 == t.leaf_count(),
        },
{
    lemma_remove_leaf_found(t, pid);
    lemma_leaf_count_leaves(t);
    match t.remove_leaf(pid) {
        Some(Some(t2)) => {
            let i = lemma_remove_leaf_leaves(t, pid);
            lemma_leaf_count_leaves(t2);
        },
        _ => {},
    }
}

/// One tab's pane layout: the root of the pane tree, the currently active
/// pane, and the id allocator for panes created in this tab. Pane ids are
/// handed out in increasing order and never reused, so a stale id reliably
/// fails to resolve instead of pointing at an unrelated pane.
pub struct SplitContainer {
    pub root: SplitPane,
    pub active_pane_id: Option<PaneId>,
    pub next_pane_id: usize,
}

impl SplitContainer {
    /// The container invariant: the tree is well-formed, pane ids are
    /// unique and below the allocator mark, and the active id, when set,
    /// resolves to a leaf present in the tree.
    pub open spec fn wf(self) -> bool {
        &&& self.root.wf()
        &&& leaf_ids_unique(self.root.leaves())
        &&& leaf_ids_below(self.root.leaves(), self.next_pane_id)
        &&& match self.active_pane_id {
            Some(a) => self.root.contains_pane(a.0),
            None => true,
        }
    }

    /// A container holding a single leaf pane, which is active.
    pub fn new(terminal: usize) -> (r: Self)
        ensures
            r.root == (SplitPane::Terminal { id: PaneId(0), terminal }),
            r.active_pane_id == Some(PaneId(0)),
            r.next_pane_id == 1,
            r.wf(),
    {
        let r = SplitContainer {
            root: SplitPane::new_terminal(PaneId(0), terminal),
            active_pane_id: Some(PaneId(0)),
            next_pane_id: 1,
        };
        proof {
            assert(r.root.leaves() =~= seq![(PaneId(0), terminal)]);
        }
        r
    }

    /// Terminal handle of the active pane, if an active pane is set.
    pub fn get_active_terminal(&self) -> (r: Option<usize>)
        ensures
            r == match self.active_pane_id {
                Some(a) => self.root.spec_find_terminal(a.0),
                None => None::<usize>,
            },
    {
        match self.active_pane_id {
            Some(a) => self.root.find_terminal(a),
            None => None,
        }
    }

    /// Makes `pane_id` the active pane if it resolves to a leaf of the
    /// tree; a stale id is a no-op.
    pub fn set_active_pane(&mut self, pane_id: PaneId)
        requires
            old(self).wf(),
        ensures
            final(self).wf(),
            final(self).root == old(self).root,
            final(self).next_pane_id == old(self).next_pane_id,
            final(self).active_pane_id == if old(self).root.contains_pane(pane_id.0) {
                Some(pane_id)
            } else {
                old(self).active_pane_id
            },
    {
        proof {
            lemma_find_terminal_contains(self.root, pane_id.0);
        }
        if self.root.find_terminal(pane_id).is_some() {
            self.active_pane_id = Some(pane_id);
        }
    }

    /// All leaves of the tab in pre-order, as (pane id, terminal handle).
    pub fn all_terminals(&self) -> (r: Vec<(PaneId, usize)>)
        ensures
            r@ == self.root.leaves(),
    {
        self.root.all_terminals()
    }

    /// Splits the active pane: allocates the next pane id, replaces the
    /// active leaf in place by a split holding the original leaf and a
    /// fresh leaf wrapping `new_terminal`, and makes the fresh leaf active.
    /// Returns the id of the new pane, or `None`, changing nothing, when no
    /// active pane is set.
    pub fn split_active_pane(&mut self, direction: SplitDirection, new_terminal: usize) -> (r:
        Option<PaneId>)
        requires
            old(self).wf(),
            old(self).next_pane_id < usize::MAX,
        ensures
            final(self).wf(),
            match old(self).active_pane_id {
                None => r is None && *final(self) == *old(self),
                Some(a) => {
                    let new_id = PaneId(old(self).next_pane_id);
                    &&& r == Some(new_id)
                    &&& final(self).root == old(self).root.split_at(
                        a.0,
                        direction,
                        new_id,
                        new_terminal,
                    )->Some_0
                    &&& final(self).active_pane_id == Some(new_id)
                    &&& final(self).next_pane_id == old(self).next_pane_id + 1
                },
            },
    {
        match self.active_pane_id {
            Some(active_id) => {
                let new_id = PaneId(self.next_pane_id);
                proof {
                    lemma_split_at_found(self.root, active_id.0, direction, new_id, new_terminal);
                }
                if self.root.split(active_id, direction, new_terminal, new_id) {
                    self.next_pane_id = self.next_pane_id + 1;
                    self.active_pane_id = Some(new_id);
                    proof {
                        let before = old(self).root;
                        let i = lemma_split_at_leaves(
                            before,
                            active_id.0,
                            direction,
                            new_id,
                            new_terminal,
                        );
                        before.leaves().insert_ensures(i + 1, (new_id, new_terminal));
                        lemma_contains_pane_leaves(self.root, new_id.0);
                        assert(self.root.leaves()[i + 1].0.0 == new_id.0);
                        assert(leaf_ids_unique(self.root.leaves())) by {
                            assert forall|p: int, q: int|
                                #![trigger self.root.leaves()[p], self.root.leaves()[q]]
                                0 <= p < q < self.root.leaves().len() implies self.root.leaves()[
                                p
                            ].0.0 != self.root.leaves()[q].0.0 by {
                                let s = before.leaves();
                                let s2 = self.root.leaves();
                                if p != i + 1 && q != i + 1 {
                                    let p0: int = if p < i + 1 { p } else { p - 1 };
                                    let q0: int = if q < i + 1 { q } else { q - 1 };
                                    assert(s2[p] == s[p0] && s2[q] == s[q0]);
                                }
                            }
                        }
                    }
                    Some(new_id)
                } else {
                    None
                }
            },
            None => None,
        }
    }

    /// Closes the active pane and repairs the active id. The last pane of a
    /// tab is never closed here — with a single leaf this is a no-op
    /// returning false, and the tab-close path must be used instead. After
    /// a successful close the active id falls back to the first leaf in
    /// pre-order, since the closed pane was the active one.
    pub fn close_active_pane(&mut self) -> (r: bool)
        requires
            old(self).wf(),
        ensures
            final(self).wf(),
            r == (old(self).active_pane_id is Some && old(self).root.leaf_count() > 1),
            !r ==> *final(self) == *old(self),
            r ==> ({
                let a = old(self).active_pane_id->Some_0.0;
                &&& old(self).root.remove_leaf(a) matches Some(Some(t2)) && final(self).root == t2
                &&& final(self).active_pane_id == Some(final(self).root.leaves()[0].0)
                &&& final(self).next_pane_id == old(self).next_pane_id
            }),
    {
        match self.active_pane_id {
            None => {
                proof {
                    lemma_leaf_count_leaves(self.root);
                }
                false
            },
            Some(active_id) => {
                let is_last = match &self.root {
                    SplitPane::Terminal { .. } => true,
                    _ => false,
                };
                proof {
                    lemma_split_node_leaf_count(self.root);
                }
                if is_last {
                    false
                } else {
                    proof {
                        lemma_remove_leaf_found(self.root, active_id.0);
                    }
                    let result = self.root.close_pane(active_id);
                    if let Some(new_root) = result.replacement {
                        self.root = new_root;
                    }
                    proof {
                        let before = old(self).root;
                        let i = lemma_remove_leaf_leaves(before, active_id.0);
                        before.leaves().remove_ensures(i);
                        lemma_leaf_count_leaves(self.root);
                        lemma_contains_pane_leaves(self.root, active_id.0);
                        lemma_find_terminal_contains(self.root, active_id.0);
                        lemma_contains_pane_leaves(self.root, self.root.leaves()[0].0.0);
                    }
                    let terminals = self.root.all_terminals();
                    if self.root.find_terminal(active_id).is_none() {
                        self.active_pane_id = Some(terminals[0].0);
                    }
                    true
                }
            },
        }
    }

    /// Closes the pane holding the terminal with index `terminal_index` —
    /// used when a "process exited" notification arrives from the terminal
    /// collaborator, so the target is resolved by handle rather than
    /// assumed active. A stale handle, or a tab whose only pane this is,
    /// is a no-op returning false. The active id is repaired to the first
    /// leaf in pre-order only when the closed pane was the active one.
    pub fn close_pane_by_terminal_index(&mut self, terminal_index: usize) -> (r: bool)
        requires
            old(self).wf(),
        ensures
            final(self).wf(),
            r == (old(self).root.spec_find_pane_by_terminal(terminal_index) is Some && old(
                self,
            ).root.leaf_count() > 1),
            !r ==> *final(self) == *old(self),
            r ==> ({
                let pid = old(self).root.spec_find_pane_by_terminal(terminal_index)->Some_0;
                &&& old(self).root.remove_leaf(pid.0) matches Some(Some(t2)) && final(self).root
                    == t2
                &&& final(self).next_pane_id == old(self).next_pane_id
                &&& final(self).active_pane_id == if old(self).active_pane_id == Some(pid) {
                    Some(final(self).root.leaves()[0].0)
                } else {
                    old(self).active_pane_id
                }
            }),
    {
        proof {
            lemma_find_pane_by_terminal_contains(self.root, terminal_index);
            lemma_leaf_count_leaves(self.root);
            lemma_split_node_leaf_count(self.root);
        }
        match self.root.find_pane_by_terminal_index(terminal_index) {
            None => false,
            Some(pane_id) => {
                let is_last = match &self.root {
                    SplitPane::Terminal { .. } => true,
                    _ => false,
                };
                if is_last {
                    false
                } else {
                    proof {
                        lemma_remove_leaf_found(self.root, pane_id.0);
                    }
                    let result = self.root.close_pane(pane_id);
                    if let Some(new_root) = result.replacement {
                        self.root = new_root;
                    }
                    proof {
                        let before = old(self).root;
                        let i = lemma_remove_leaf_leaves(before, pane_id.0);
                        before.leaves().remove_ensures(i);
                        lemma_leaf_count_leaves(self.root);
                        lemma_contains_pane_leaves(self.root, pane_id.0);
                        lemma_find_terminal_contains(self.root, pane_id.0);
                        lemma_contains_pane_leaves(self.root, self.root.leaves()[0].0.0);
                        if old(self).active_pane_id is Some && old(self).active_pane_id
                            != Some(pane_id) {
                            let a = old(self).active_pane_id->Some_0.0;
                            lemma_contains_pane_leaves(before, a);
                            lemma_contains_pane_leaves(self.root, a);
                            lemma_find_terminal_contains(self.root, a);
                            let k = choose|k: int|
                                0 <= k < before.leaves().len() && (#[trigger] before.leaves()[
                                    k
                                ]).0.0 == a;
                            if k < i {
                                assert(self.root.leaves()[k].0.0 == a);
                            } else {
                                assert(self.root.leaves()[k - 1].0.0 == a);
                            }
                        }
                    }
                    let closed_active = match self.active_pane_id {
                        Some(a) => a.0 == pane_id.0,
                        None => false,
                    };
                    let unresolved = match self.active_pane_id {
                        Some(a) => self.root.find_terminal(a).is_none(),
                        None => false,
                    };
                    if closed_active || unresolved {
                        let terminals = self.root.all_terminals();
                        self.active_pane_id = Some(terminals[0].0);
                    }
                    true
                }
            },
        }
    }

    /// The recursive well-formedness validator: checks the tree structure,
    /// the uniqueness and bounds of the pane ids, and that the active id
    /// resolves to a leaf of the tree.
    pub fn is_well_formed(&self) -> (r: bool)
        ensures
            r == self.wf(),
    {
        if !self.root.check_wf() {
            return false;
        }
        let leaves = self.root.all_terminals();
        let n = leaves.len();
        let mut i: usize = 0;
        while i < n
            invariant
                n == leaves.len(),
                leaves@ == self.root.leaves(),
                i <= n,
                forall|p: int, q: int|
                    #![trigger leaves@[p], leaves@[q]]
                    0 <= p < q < n && p < i ==> leaves@[p].0.0 != leaves@[q].0.0,
                forall|p: int| 0 <= p < i ==> (#[trigger] leaves@[p]).0.0 < self.next_pane_id,
            decreases n - i,
        {
            if leaves[i].0.0 >= self.next_pane_id {
                return false;
            }
            let mut j: usize = i + 1;
            while j < n
                invariant
                    n == leaves.len(),
                    leaves@ == self.root.leaves(),
                    i < j || i + 1 == j,
                    i < n,
                    i + 1 <= j <= n,
                    forall|q: int| i < q < j ==> leaves@[i as int].0.0 != (#[trigger] leaves@[q]).0.0,
                decreases n - j,
            {
                if leaves[i].0.0 == leaves[j].0.0 {
                    return false;
                }
                j = j + 1;
            }
            i = i + 1;
        }
        match self.active_pane_id {
            Some(a) => {
                proof {
                    lemma_find_terminal_contains(self.root, a.0);
                }
                self.root.find_terminal(a).is_some()
            },
            None => true,
        }
    }
}

/// Splitting a leaf and then closing the newly created sibling restores
/// the original tree exactly: same ids, same shape, same ratios. The new
/// id must be fresh, as ids handed out by the per-tab allocator are.
pub proof fn lemma_split_then_close_restores(
    t: SplitPane,
    pid: usize,
    direction: SplitDirection,
    new_id: PaneId,
    new_terminal: usize,
)
    requires
        !t.contains_pane(new_id.0),
        t.split_at(pid, direction, new_id, new_terminal) is Some,
    ensures
        t.split_at(pid, direction, new_id, new_terminal)->Some_0.remove_leaf(new_id.0) == Some(
            Some(t),
        ),
    decreases t,
{
    let t1 = t.split_at(pid, direction, new_id, new_terminal)->Some_0;
    match t {
        SplitPane::Terminal { id, terminal } => {
            reveal_with_fuel(SplitPane::remove_leaf, 3);
            assert(t1.remove_leaf(new_id.0) == Some(Some(t)));
        },
        SplitPane::Split { direction: d, first, second, ratio } => {
            if first.split_at(pid, direction, new_id, new_terminal) is Some {
                lemma_split_then_close_restores(*first, pid, direction, new_id, new_terminal);
            } else {
                lemma_remove_leaf_found(*first, new_id.0);
                lemma_split_then_close_restores(*second, pid, direction, new_id, new_terminal);
            }
        },
    }
}

} // verus!
