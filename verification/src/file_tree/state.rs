//! State of the file tree: known nodes, cached directory listings, the
//! directories being loaded, the selection and the scroll position.
//!
//! Nodes, listings and loads are kept in lists keyed by path; the tree is
//! read through their maps (`nodes_view`, `children_view`, `loading_view`).
use vstd::prelude::*;

use crate::git::patch::{entry_views, last_status};
use crate::git::{GitFileEntry, GitFileStatus, GitFileStatusPatch};
use crate::keyed::{
    found_at, has_key, keyed_map, keys_unique, lemma_keyed_absent, lemma_keyed_lookup, lemma_keyed_pointwise,
    lemma_keyed_push, lemma_keyed_remove, lemma_keyed_update,
};
use crate::path::{file_name, path_join, path_strip_prefix, spec_file_name, spec_path_join, strip_path_prefix};
use crate::selection::{clamp_int, clamp_move, scroll_offset_for_row, spec_scroll_offset_for_row};
use crate::text::{push_str, str_chars, str_eq, string_from_chars, string_views};

use super::symlink::detect_symlink_loop;
use super::{DirectoryEntry, FileNode};

verus! {

/// A row of the flattened tree.
#[derive(Debug, Clone, PartialEq, Eq)]
pub struct VisibleTreeRow {
    pub path: String,
    pub depth: usize,
}

/// The cached listing of one directory, in load order.
#[derive(Debug, Clone, PartialEq, Eq)]
pub struct ChildList {
    pub parent: String,
    pub paths: Vec<String>,
}

#[derive(Debug, Clone, PartialEq, Eq)]
pub struct FileTreeState {
    pub root: String,
    pub nodes: Vec<FileNode>,
    pub children: Vec<ChildList>,
    pub selected: Option<String>,
    pub scroll_offset: usize,
    pub loading: Vec<String>,
}

#[derive(Debug, Clone, Copy, PartialEq, Eq, Structural)]
pub enum ExpandAction {
    AlreadyExpanded,
    NeedsLoad,
}

/// A node is keyed by its path.
pub open spec fn node_key() -> spec_fn(FileNode) -> Seq<char> {
    |n: FileNode| n.path@
}

/// A listing is keyed by its directory.
pub open spec fn list_key() -> spec_fn(ChildList) -> Seq<char> {
    |c: ChildList| c.parent@
}

/// A pending load is keyed by its directory.
pub open spec fn text_key() -> spec_fn(String) -> Seq<char> {
    |s: String| s@
}

/// Paths and depths of rows.
pub open spec fn row_views(rows: Seq<VisibleTreeRow>) -> Seq<(Seq<char>, nat)> {
    rows.map_values(|r: VisibleTreeRow| (r.path@, r.depth as nat))
}

/// `Some` of the view of a string, or `None`.
pub open spec fn opt_view(o: Option<String>) -> Option<Seq<char>> {
    match o {
        Some(s) => Some(s@),
        None => None,
    }
}

impl FileTreeState {
    /// Each path is known once, listed once and loading at most once.
    pub open spec fn wf(&self) -> bool {
        &&& keys_unique(self.nodes@, node_key())
        &&& keys_unique(self.children@, list_key())
        &&& keys_unique(self.loading@, text_key())
    }

    /// Known nodes by path.
    pub open spec fn nodes_view(&self) -> Map<Seq<char>, FileNode> {
        keyed_map(self.nodes@, node_key())
    }

    /// Cached listings by directory.
    pub open spec fn children_view(&self) -> Map<Seq<char>, Seq<Seq<char>>> {
        keyed_map(self.children@, list_key()).map_values(|c: ChildList| string_views(c.paths@))
    }

    /// Directories whose listing has been requested and not yet applied.
    pub open spec fn loading_view(&self) -> Set<Seq<char>> {
        keyed_map(self.loading@, text_key()).dom()
    }
}

/// The node the tree starts with: the root directory, collapsed and not
/// loaded, named by its last component (or the whole path without one).
pub open spec fn root_node_ok(n: FileNode, root: Seq<char>) -> bool {
    &&& n.path@ == root
    &&& n.name@ == match spec_file_name(root) {
        Some(name) => name,
        None => root,
    }
    &&& n.is_dir
    &&& !n.expanded
    &&& !n.children_loaded
    &&& n.load_error is None
    &&& n.git_status is None
}

fn copy_string(s: &str) -> (r: String)
    ensures
        r@ == s@,
{
    string_from_chars(str_chars(s).as_slice())
}

/// Position of the node for `path`.
fn find_node(nodes: &Vec<FileNode>, path: &str) -> (r: Option<usize>)
    ensures
        found_at(nodes@, node_key(), path@, r),
{
    let mut i: usize = 0;
    while i < nodes.len()
        invariant
            i <= nodes@.len(),
            forall|k: int| 0 <= k < i ==> nodes@[k].path@ != path@,
        decreases nodes.len() - i,
    {
        if str_eq(nodes[i].path.as_str(), path) {
            return Some(i);
        }
        i = i + 1;
    }
    None
}

/// Position of the listing of `path`.
fn find_list(children: &Vec<ChildList>, path: &str) -> (r: Option<usize>)
    ensures
        found_at(children@, list_key(), path@, r),
{
    let mut i: usize = 0;
    while i < children.len()
        invariant
            i <= children@.len(),
            forall|k: int| 0 <= k < i ==> children@[k].parent@ != path@,
        decreases children.len() - i,
    {
        if str_eq(children[i].parent.as_str(), path) {
            return Some(i);
        }
        i = i + 1;
    }
    None
}

/// Position of `path` among pending loads.
fn find_text(items: &Vec<String>, path: &str) -> (r: Option<usize>)
    ensures
        found_at(items@, text_key(), path@, r),
{
    let mut i: usize = 0;
    while i < items.len()
        invariant
            i <= items@.len(),
            forall|k: int| 0 <= k < i ==> items@[k]@ != path@,
        decreases items.len() - i,
    {
        if str_eq(items[i].as_str(), path) {
            return Some(i);
        }
        i = i + 1;
    }
    None
}

/// Drops `path` from the pending loads.
fn remove_loading(loading: &mut Vec<String>, path: &str)
    requires
        keys_unique(old(loading)@, text_key()),
    ensures
        keys_unique(final(loading)@, text_key()),
        keyed_map(final(loading)@, text_key()).dom() == keyed_map(old(loading)@, text_key()).dom().remove(path@),
{
    match find_text(loading, path) {
        Some(i) => {
            proof {
                lemma_keyed_remove(loading@, text_key(), i as int);
            }
            loading.remove(i);
        },
        None => {
            proof {
                lemma_keyed_absent(loading@, text_key(), path@);
            }
            assert(keyed_map(loading@, text_key()).dom() =~= keyed_map(loading@, text_key()).dom().remove(path@));
        },
    }
}

impl FileTreeState {
    /// A tree holding only its root directory.
    pub fn at_root(root: String) -> (r: Self)
        ensures
            r.wf(),
            r.root@ == root@,
            r.nodes@.len() == 1,
            r.nodes_view().dom() == set![root@],
            root_node_ok(r.nodes_view()[root@], root@),
            r.children@.len() == 0,
            r.children_view() == Map::<Seq<char>, Seq<Seq<char>>>::empty(),
            r.selected is None,
            r.scroll_offset == 0,
            r.loading@.len() == 0,
            r.loading_view() == Set::<Seq<char>>::empty(),
    {
        let name = match file_name(root.as_str()) {
            Some(n) => n,
            None => copy_string(root.as_str()),
        };
        let node = FileNode {
            path: copy_string(root.as_str()),
            name,
            is_dir: true,
            expanded: false,
            children_loaded: false,
            load_error: None,
            git_status: None,
        };
        let mut nodes: Vec<FileNode> = Vec::new();
        nodes.push(node);
        let r = FileTreeState {
            root,
            nodes,
            children: Vec::new(),
            selected: None,
            scroll_offset: 0,
            loading: Vec::new(),
        };
        proof {
            lemma_keyed_lookup(r.nodes@, node_key(), 0);
            assert(r.nodes_view().dom() =~= set![r.root@]);
            assert(r.children_view() =~= Map::<Seq<char>, Seq<Seq<char>>>::empty());
            assert(r.loading_view() =~= Set::<Seq<char>>::empty());
        }
        r
    }

    /// Position of the node for `path`.
    pub fn node_index(&self, path: &str) -> (r: Option<usize>)
        ensures
            found_at(self.nodes@, node_key(), path@, r),
    {
        find_node(&self.nodes, path)
    }

    /// The node for `path`, if known.
    pub fn node(&self, path: &str) -> (r: Option<&FileNode>)
        requires
            self.wf(),
        ensures
            match r {
                Some(n) => self.nodes_view().dom().contains(path@) && *n == self.nodes_view()[path@],
                None => !self.nodes_view().dom().contains(path@),
            },
    {
        match find_node(&self.nodes, path) {
            Some(i) => {
                proof {
                    lemma_keyed_lookup(self.nodes@, node_key(), i as int);
                }
                Some(&self.nodes[i])
            },
            None => None,
        }
    }

    /// The cached listing of `path`, if any.
    pub fn children_of(&self, path: &str) -> (r: Option<&Vec<String>>)
        requires
            self.wf(),
        ensures
            match r {
                Some(v) => self.children_view().dom().contains(path@) && string_views(v@)
                    == self.children_view()[path@],
                None => !self.children_view().dom().contains(path@),
            },
    {
        match find_list(&self.children, path) {
            Some(i) => {
                proof {
                    lemma_keyed_lookup(self.children@, list_key(), i as int);
                }
                Some(&self.children[i].paths)
            },
            None => None,
        }
    }

    /// Whether the listing of `path` has been requested and not applied.
    pub fn is_loading(&self, path: &str) -> (r: bool)
        requires
            self.wf(),
        ensures
            r == self.loading_view().contains(path@),
    {
        match find_text(&self.loading, path) {
            Some(i) => {
                proof {
                    lemma_keyed_lookup(self.loading@, text_key(), i as int);
                }
                true
            },
            None => false,
        }
    }

    /// Number of known nodes.
    pub fn node_count(&self) -> (r: usize)
        ensures
            r == self.nodes@.len(),
    {
        self.nodes.len()
    }

    /// Sets the fields of the node at `i` that `f` picks; used by the
    /// mutators below to keep the node map in step.
    proof fn lemma_set_node(&self, i: int, n: FileNode)
        requires
            self.wf(),
            0 <= i < self.nodes@.len(),
            n.path@ == self.nodes@[i].path@,
        ensures
            keys_unique(self.nodes@.update(i, n), node_key()),
            keyed_map(self.nodes@.update(i, n), node_key()) == self.nodes_view().insert(n.path@, n),
    {
        lemma_keyed_update(self.nodes@, node_key(), i, n);
    }
}

/// The state after an accepted expansion of `path`: a known directory is
/// marked expanded and, unless loaded or already loading, queued for load.
pub open spec fn expand_effect(old: FileTreeState, new: FileTreeState, path: Seq<char>, action: ExpandAction) -> bool {
    &&& new.wf()
    &&& new.root == old.root
    &&& new.children == old.children
    &&& new.selected == old.selected
    &&& new.scroll_offset == old.scroll_offset
    &&& if !old.nodes_view().dom().contains(path) || !old.nodes_view()[path].is_dir {
        &&& action == ExpandAction::AlreadyExpanded
        &&& new.nodes == old.nodes
        &&& new.loading == old.loading
    } else {
        let n = old.nodes_view()[path];
        &&& new.nodes_view() == old.nodes_view().insert(path, FileNode { expanded: true, ..n })
        &&& if n.children_loaded || old.loading_view().contains(path) {
            &&& action == ExpandAction::AlreadyExpanded
            &&& new.loading == old.loading
        } else {
            &&& action == ExpandAction::NeedsLoad
            &&& new.loading_view() == old.loading_view().insert(path)
        }
    }
}

impl FileTreeState {
    /// Expands `path` once the walk up to the root has been checked:
    /// a refusal leaves everything as it was.
    pub fn expand_checked(&mut self, path: &str, refusal: Option<String>) -> (r: Result<ExpandAction, String>)
        requires
            old(self).wf(),
        ensures
            refusal is Some ==> (r matches Err(e) && e@ == "symlink loop detected"@ && *final(self) == *old(self)),
            refusal is None ==> (r matches Ok(a) && expand_effect(*old(self), *final(self), path@, a)),
    {
        if refusal.is_some() {
            let mut e = String::new();
            push_str(&mut e, "symlink loop detected");
            return Err(e);
        }
        let i = match find_node(&self.nodes, path) {
            Some(i) => i,
            None => {
                proof {
                    lemma_keyed_absent(self.nodes@, node_key(), path@);
                }
                return Ok(ExpandAction::AlreadyExpanded);
            },
        };
        proof {
            lemma_keyed_lookup(self.nodes@, node_key(), i as int);
        }
        if !self.nodes[i].is_dir {
            return Ok(ExpandAction::AlreadyExpanded);
        }
        let ghost before = *self;
        proof {
            before.lemma_set_node(i as int, FileNode { expanded: true, ..before.nodes@[i as int] });
        }
        self.nodes[i].expanded = true;
        assert(self.nodes@ =~= before.nodes@.update(i as int, FileNode { expanded: true, ..before.nodes@[i as int] }));
        if self.nodes[i].children_loaded {
            return Ok(ExpandAction::AlreadyExpanded);
        }
        match find_text(&self.loading, path) {
            Some(k) => {
                proof {
                    lemma_keyed_lookup(self.loading@, text_key(), k as int);
                }
                Ok(ExpandAction::AlreadyExpanded)
            },
            None => {
                let p = copy_string(path);
                proof {
                    lemma_keyed_push(self.loading@, text_key(), p);
                }
                self.loading.push(p);
                assert(self.loading_view() =~= before.loading_view().insert(path@));
                Ok(ExpandAction::NeedsLoad)
            },
        }
    }

    /// Expands `path`, first refusing a walk up to the root that is too
    /// deep or loops through a symlink. Whether it does depends on the file
    /// system; an accepted expansion is what `expand_checked` does.
    pub fn expand(&mut self, path: &str) -> (r: Result<ExpandAction, String>)
        requires
            old(self).wf(),
        ensures
            match r {
                Err(e) => e@ == "symlink loop detected"@ && *final(self) == *old(self),
                Ok(a) => expand_effect(*old(self), *final(self), path@, a),
            },
    {
        let refusal = detect_symlink_loop(self.root.as_str(), path);
        self.expand_checked(path, refusal)
    }

    /// Marks a known node collapsed.
    pub fn collapse(&mut self, path: &str)
        requires
            old(self).wf(),
        ensures
            final(self).wf(),
            final(self).root == old(self).root,
            final(self).children == old(self).children,
            final(self).loading == old(self).loading,
            final(self).selected == old(self).selected,
            final(self).scroll_offset == old(self).scroll_offset,
            final(self).nodes_view() == if old(self).nodes_view().dom().contains(path@) {
                old(self).nodes_view().insert(path@, FileNode { expanded: false, ..old(self).nodes_view()[path@] })
            } else {
                old(self).nodes_view()
            },
    {
        match find_node(&self.nodes, path) {
            Some(i) => {
                let ghost before = *self;
                proof {
                    lemma_keyed_lookup(self.nodes@, node_key(), i as int);
                    before.lemma_set_node(i as int, FileNode { expanded: false, ..before.nodes@[i as int] });
                }
                self.nodes[i].expanded = false;
                assert(self.nodes@ =~= before.nodes@.update(i as int, FileNode { expanded: false, ..before.nodes@[i as int] }));
            },
            None => {
                proof {
                    lemma_keyed_absent(self.nodes@, node_key(), path@);
                }
            },
        }
    }

    /// Selects a known node; an unknown path changes nothing.
    pub fn select(&mut self, path: String)
        requires
            old(self).wf(),
        ensures
            old(self).nodes_view().dom().contains(path@) ==> *final(self) == (FileTreeState {
                selected: Some(path),
                ..*old(self)
            }),
            !old(self).nodes_view().dom().contains(path@) ==> *final(self) == *old(self),
    {
        match find_node(&self.nodes, path.as_str()) {
            Some(i) => {
                proof {
                    lemma_keyed_lookup(self.nodes@, node_key(), i as int);
                }
                self.selected = Some(path);
            },
            None => {
                proof {
                    lemma_keyed_absent(self.nodes@, node_key(), path@);
                }
            },
        }
    }
}

/// Rows below and including `p`: the node itself at `depth`, then, when it
/// is an expanded directory with a cached listing, the rows of each listed
/// child one level deeper. `fuel` bounds the depth of the walk; with one
/// unit per known node no walk over a listing without cycles is cut short.
pub open spec fn rows_from(
    nodes: Map<Seq<char>, FileNode>,
    kids: Map<Seq<char>, Seq<Seq<char>>>,
    p: Seq<char>,
    depth: nat,
    fuel: nat,
) -> Seq<(Seq<char>, nat)>
    decreases fuel, 0nat,
{
    if fuel == 0 || !nodes.dom().contains(p) {
        Seq::empty()
    } else {
        let n = nodes[p];
        if n.expanded && n.children_loaded && kids.dom().contains(p) {
            seq![(p, depth)] + rows_list(nodes, kids, kids[p], depth + 1, (fuel - 1) as nat)
        } else {
            seq![(p, depth)]
        }
    }
}

/// Rows of each path of `ps` in turn.
pub open spec fn rows_list(
    nodes: Map<Seq<char>, FileNode>,
    kids: Map<Seq<char>, Seq<Seq<char>>>,
    ps: Seq<Seq<char>>,
    depth: nat,
    fuel: nat,
) -> Seq<(Seq<char>, nat)>
    decreases fuel, ps.len() + 1,
{
    if ps.len() == 0 {
        Seq::empty()
    } else {
        rows_list(nodes, kids, ps.drop_last(), depth, fuel) + rows_from(nodes, kids, ps.last(), depth, fuel)
    }
}

/// The flattened tree as the pane shows it, from the root.
pub open spec fn spec_visible_rows(t: FileTreeState) -> Seq<(Seq<char>, nat)> {
    rows_from(t.nodes_view(), t.children_view(), t.root@, 0, t.nodes@.len())
}

/// Position of the first row showing `p`.
pub open spec fn row_pos(rows: Seq<(Seq<char>, nat)>, p: Seq<char>) -> Option<int> {
    if exists|i: int| 0 <= i < rows.len() && rows[i].0 == p && forall|j: int| 0 <= j < i ==> rows[j].0 != p {
        Some(choose|i: int| 0 <= i < rows.len() && rows[i].0 == p && forall|j: int| 0 <= j < i ==> rows[j].0 != p)
    } else {
        None
    }
}

fn push_row(rows: &mut Vec<VisibleTreeRow>, path: String, depth: usize)
    ensures
        row_views(final(rows)@) == row_views(old(rows)@).push((path@, depth as nat)),
{
    rows.push(VisibleTreeRow { path, depth });
    assert(row_views(rows@) =~= row_views(old(rows)@).push((path@, depth as nat)));
}

impl FileTreeState {
    fn collect_visible_rows(&self, path: &str, depth: usize, fuel: usize, rows: &mut Vec<VisibleTreeRow>)
        requires
            self.wf(),
            depth + fuel <= usize::MAX,
        ensures
            row_views(final(rows)@) == row_views(old(rows)@) + rows_from(
                self.nodes_view(),
                self.children_view(),
                path@,
                depth as nat,
                fuel as nat,
            ),
        decreases fuel, 0nat,
    {
        let ghost nv = self.nodes_view();
        let ghost kv = self.children_view();
        if fuel == 0 {
            assert(row_views(rows@) =~= row_views(rows@) + Seq::<(Seq<char>, nat)>::empty());
            return;
        }
        let i = match find_node(&self.nodes, path) {
            Some(i) => i,
            None => {
                proof {
                    lemma_keyed_absent(self.nodes@, node_key(), path@);
                }
                assert(row_views(rows@) =~= row_views(rows@) + Seq::<(Seq<char>, nat)>::empty());
                return;
            },
        };
        proof {
            lemma_keyed_lookup(self.nodes@, node_key(), i as int);
        }
        let ghost start = row_views(rows@);
        push_row(rows, copy_string(path), depth);
        let node = &self.nodes[i];
        if !node.expanded || !node.children_loaded {
            return;
        }
        let j = match find_list(&self.children, path) {
            Some(j) => j,
            None => {
                proof {
                    lemma_keyed_absent(self.children@, list_key(), path@);
                }
                return;
            },
        };
        proof {
            lemma_keyed_lookup(self.children@, list_key(), j as int);
        }
        let kids = &self.children[j].paths;
        let ghost ks = string_views(kids@);
        assert(ks == kv[path@]);
        let mut k: usize = 0;
        while k < kids.len()
            invariant
                self.wf(),
                k <= kids@.len(),
                ks == string_views(kids@),
                nv == self.nodes_view(),
                kv == self.children_view(),
                depth + fuel <= usize::MAX,
                fuel > 0,
                row_views(rows@) == start + seq![(path@, depth as nat)] + rows_list(
                    nv,
                    kv,
                    ks.take(k as int),
                    depth as nat + 1,
                    (fuel - 1) as nat,
                ),
            decreases kids@.len() - k,
        {
            proof {
                assert(ks.take(k + 1).drop_last() =~= ks.take(k as int));
                assert(ks.take(k + 1).last() == kids@[k as int]@);
            }
            self.collect_visible_rows(kids[k].as_str(), depth + 1, fuel - 1, rows);
            k = k + 1;
            assert(row_views(rows@) =~= start + seq![(path@, depth as nat)] + rows_list(
                nv,
                kv,
                ks.take(k as int),
                depth as nat + 1,
                (fuel - 1) as nat,
            ));
        }
        assert(ks.take(k as int) =~= ks);
    }

    /// The flattened tree: each known node reachable from the root through
    /// expanded, loaded directories, with its depth.
    pub fn visible_rows(&self) -> (r: Vec<VisibleTreeRow>)
        requires
            self.wf(),
        ensures
            row_views(r@) == spec_visible_rows(*self),
    {
        let mut rows: Vec<VisibleTreeRow> = Vec::new();
        self.collect_visible_rows(self.root.as_str(), 0, self.nodes.len(), &mut rows);
        assert(row_views(rows@) =~= spec_visible_rows(*self));
        rows
    }
}

/// Position of the first row showing `p`.
fn find_row(rows: &Vec<VisibleTreeRow>, p: &str) -> (r: Option<usize>)
    ensures
        match r {
            Some(i) => row_pos(row_views(rows@), p@) == Some(i as int),
            None => row_pos(row_views(rows@), p@) is None,
        },
{
    let ghost v = row_views(rows@);
    let mut i: usize = 0;
    while i < rows.len()
        invariant
            i <= rows@.len(),
            v == row_views(rows@),
            forall|j: int| 0 <= j < i ==> v[j].0 != p@,
        decreases rows.len() - i,
    {
        if str_eq(rows[i].path.as_str(), p) {
            proof {
                let w = choose|w: int| 0 <= w < v.len() && v[w].0 == p@ && forall|j: int| 0 <= j < w ==> v[j].0 != p@;
                assert(v[i as int].0 == p@);
                if w < i {
                    assert(v[w].0 != p@);
                } else if w > i {
                    assert(v[i as int].0 != p@);
                }
            }
            return Some(i);
        }
        i = i + 1;
    }
    None
}

impl FileTreeState {
    /// Row of the selection in the flattened tree.
    pub fn selected_row_index(&self) -> (r: Option<usize>)
        requires
            self.wf(),
        ensures
            match self.selected {
                Some(s) => match row_pos(spec_visible_rows(*self), s@) {
                    Some(i) => r == Some(i as usize),
                    None => r is None,
                },
                None => r is None,
            },
    {
        match &self.selected {
            Some(s) => {
                let rows = self.visible_rows();
                find_row(&rows, s.as_str())
            },
            None => None,
        }
    }

    /// First visible row that keeps `row_index` on screen.
    pub fn scroll_offset_for_row(&self, row_index: usize, viewport_rows: usize) -> (r: usize)
        ensures
            r == spec_scroll_offset_for_row(row_index as nat, self.scroll_offset as nat, viewport_rows as nat),
    {
        scroll_offset_for_row(row_index, self.scroll_offset, viewport_rows)
    }

    /// Selects the first row when nothing is selected.
    pub fn ensure_selection(&mut self)
        requires
            old(self).wf(),
        ensures
            final(self).wf(),
            old(self).selected is None && spec_visible_rows(*old(self)).len() > 0 ==> *final(self) == (
            FileTreeState { selected: Some(final(self).selected.unwrap()), ..*old(self) })
                && final(self).selected.unwrap()@ == spec_visible_rows(*old(self))[0].0,
            !(old(self).selected is None && spec_visible_rows(*old(self)).len() > 0) ==> *final(self) == *old(self),
    {
        if self.selected.is_none() {
            let rows = self.visible_rows();
            if rows.len() > 0 {
                let p = copy_string(rows[0].path.as_str());
                self.selected = Some(p);
            }
        }
    }

    /// Moves the selection `delta` rows through the flattened tree, clamped
    /// to its ends, and scrolls it into view. An empty tree clears the
    /// selection; a selection that is not shown counts as the first row.
    pub fn move_selection(&mut self, delta: i32, viewport_rows: usize)
        requires
            old(self).wf(),
            spec_visible_rows(*old(self)).len() <= i32::MAX,
            spec_visible_rows(*old(self)).len() > 0 ==> (match old(self).selected {
                Some(s) => match row_pos(spec_visible_rows(*old(self)), s@) {
                    Some(i) => i,
                    None => 0,
                },
                None => 0,
            }) + delta <= i32::MAX,
        ensures
            final(self).wf(),
            spec_visible_rows(*old(self)).len() == 0 ==> *final(self) == (FileTreeState { selected: None, ..*old(self) }),
            spec_visible_rows(*old(self)).len() > 0 ==> ({
                let rows = spec_visible_rows(*old(self));
                let cur = match old(self).selected {
                    Some(s) => match row_pos(rows, s@) {
                        Some(i) => i,
                        None => 0,
                    },
                    None => 0,
                };
                let next = clamp_int(cur + delta, 0, rows.len() - 1);
                &&& final(self).root == old(self).root
                &&& final(self).nodes == old(self).nodes
                &&& final(self).children == old(self).children
                &&& final(self).loading == old(self).loading
                &&& final(self).selected matches Some(s) && s@ == rows[next].0
                &&& final(self).scroll_offset == spec_scroll_offset_for_row(
                    next as nat,
                    old(self).scroll_offset as nat,
                    viewport_rows as nat,
                )
            }),
    {
        let rows = self.visible_rows();
        if rows.len() == 0 {
            self.selected = None;
            return;
        }
        let current = match &self.selected {
            Some(s) => match find_row(&rows, s.as_str()) {
                Some(i) => i,
                None => 0,
            },
            None => 0,
        };
        let next = clamp_move(current, delta, rows.len());
        let p = copy_string(rows[next].path.as_str());
        self.selected = Some(p);
        self.scroll_offset = scroll_offset_for_row(next, self.scroll_offset, viewport_rows);
    }

    /// The row shown at `viewport_index` of the visible window.
    pub fn row_at_viewport_index(&self, viewport_index: usize) -> (r: Option<VisibleTreeRow>)
        requires
            self.wf(),
        ensures
            ({
                let rows = spec_visible_rows(*self);
                let k = if self.scroll_offset + viewport_index > usize::MAX {
                    usize::MAX as int
                } else {
                    self.scroll_offset + viewport_index
                };
                match r {
                    Some(row) => k < rows.len() && (row.path@, row.depth as nat) == rows[k],
                    None => k >= rows.len(),
                }
            }),
    {
        let rows = self.visible_rows();
        let k = self.scroll_offset.saturating_add(viewport_index);
        if k < rows.len() {
            let row = &rows[k];
            Some(VisibleTreeRow { path: copy_string(row.path.as_str()), depth: row.depth })
        } else {
            None
        }
    }

    /// Pulls the scroll offset back so that the window is not past the end
    /// of the rows (for a viewport of at least one row).
    pub fn clamp_scroll_to_viewport(&mut self, viewport_rows: usize)
        requires
            old(self).wf(),
        ensures
            ({
                let total = spec_visible_rows(*old(self)).len();
                let viewport = if viewport_rows == 0 { 1 } else { viewport_rows as int };
                let max_offset = if total > viewport { total - viewport } else { 0 };
                *final(self) == (FileTreeState {
                    scroll_offset: if total == 0 {
                        0
                    } else if old(self).scroll_offset > max_offset {
                        max_offset as usize
                    } else {
                        old(self).scroll_offset
                    },
                    ..*old(self)
                })
            }),
    {
        let total = self.visible_rows().len();
        if total == 0 {
            self.scroll_offset = 0;
            return;
        }
        let viewport = if viewport_rows == 0 { 1 } else { viewport_rows };
        let max_offset = total.saturating_sub(viewport);
        if self.scroll_offset > max_offset {
            self.scroll_offset = max_offset;
        }
    }

    /// The selected path as text.
    pub fn selected_path_string(&self) -> (r: Option<String>)
        ensures
            opt_view(r) == opt_view(self.selected),
    {
        match &self.selected {
            Some(s) => Some(copy_string(s.as_str())),
            None => None,
        }
    }
}

/// A freshly listed node: collapsed, not loaded, without status.
pub open spec fn fresh_node(c: DirectoryEntry) -> FileNode {
    FileNode {
        path: c.path,
        name: c.name,
        is_dir: c.is_dir,
        expanded: false,
        children_loaded: false,
        load_error: None,
        git_status: None,
    }
}

/// Nodes after recording each listed entry in turn (a later entry for the
/// same path replaces an earlier one).
pub open spec fn insert_entries(m: Map<Seq<char>, FileNode>, cs: Seq<DirectoryEntry>) -> Map<Seq<char>, FileNode>
    decreases cs.len(),
{
    if cs.len() == 0 {
        m
    } else {
        insert_entries(m, cs.drop_last()).insert(cs.last().path@, fresh_node(cs.last()))
    }
}

impl FileTreeState {
    /// Replaces the node at `i` by `n`, which has the same path.
    fn set_node(&mut self, i: usize, n: FileNode)
        requires
            old(self).wf(),
            i < old(self).nodes@.len(),
            n.path@ == old(self).nodes@[i as int].path@,
        ensures
            final(self).wf(),
            final(self).nodes_view() == old(self).nodes_view().insert(n.path@, n),
            final(self).nodes@.len() == old(self).nodes@.len(),
            final(self).root == old(self).root,
            final(self).children == old(self).children,
            final(self).loading == old(self).loading,
            final(self).selected == old(self).selected,
            final(self).scroll_offset == old(self).scroll_offset,
    {
        proof {
            lemma_keyed_update(self.nodes@, node_key(), i as int, n);
        }
        self.nodes.set(i, n);
    }

    /// Records node `n`, replacing any node with its path.
    fn put_node(&mut self, n: FileNode)
        requires
            old(self).wf(),
        ensures
            final(self).wf(),
            final(self).nodes_view() == old(self).nodes_view().insert(n.path@, n),
            final(self).root == old(self).root,
            final(self).children == old(self).children,
            final(self).loading == old(self).loading,
            final(self).selected == old(self).selected,
            final(self).scroll_offset == old(self).scroll_offset,
    {
        match find_node(&self.nodes, n.path.as_str()) {
            Some(i) => {
                self.set_node(i, n);
            },
            None => {
                proof {
                    lemma_keyed_push(self.nodes@, node_key(), n);
                }
                self.nodes.push(n);
            },
        }
    }

    /// Forgets the node for `path`.
    fn drop_node(&mut self, path: &str)
        requires
            old(self).wf(),
        ensures
            final(self).wf(),
            final(self).nodes_view() == old(self).nodes_view().remove(path@),
            final(self).root == old(self).root,
            final(self).children == old(self).children,
            final(self).loading == old(self).loading,
            final(self).selected == old(self).selected,
            final(self).scroll_offset == old(self).scroll_offset,
    {
        match find_node(&self.nodes, path) {
            Some(i) => {
                proof {
                    lemma_keyed_remove(self.nodes@, node_key(), i as int);
                }
                self.nodes.remove(i);
            },
            None => {
                proof {
                    lemma_keyed_absent(self.nodes@, node_key(), path@);
                }
                assert(self.nodes_view() =~= self.nodes_view().remove(path@));
            },
        }
    }

    /// Takes out the listing of `path`, if there is one.
    fn take_listing(&mut self, path: &str) -> (r: Option<Vec<String>>)
        requires
            old(self).wf(),
        ensures
            final(self).wf(),
            final(self).children_view() == old(self).children_view().remove(path@),
            match r {
                Some(ps) => old(self).children_view().dom().contains(path@) && string_views(ps@)
                    == old(self).children_view()[path@] && final(self).children@.len() + 1 == old(self).children@.len(),
                None => !old(self).children_view().dom().contains(path@) && final(self).children == old(self).children,
            },
            final(self).root == old(self).root,
            final(self).nodes == old(self).nodes,
            final(self).loading == old(self).loading,
            final(self).selected == old(self).selected,
            final(self).scroll_offset == old(self).scroll_offset,
    {
        match find_list(&self.children, path) {
            Some(j) => {
                proof {
                    lemma_keyed_lookup(self.children@, list_key(), j as int);
                    lemma_keyed_remove(self.children@, list_key(), j as int);
                }
                let list = self.children.remove(j);
                assert(self.children_view() =~= old(self).children_view().remove(path@));
                Some(list.paths)
            },
            None => {
                proof {
                    lemma_keyed_absent(self.children@, list_key(), path@);
                }
                assert(self.children_view() =~= self.children_view().remove(path@));
                None
            },
        }
    }

    /// Records the listing of `parent`, replacing any earlier one.
    fn put_listing(&mut self, parent: String, paths: Vec<String>)
        requires
            old(self).wf(),
        ensures
            final(self).wf(),
            final(self).children_view() == old(self).children_view().insert(parent@, string_views(paths@)),
            final(self).root == old(self).root,
            final(self).nodes == old(self).nodes,
            final(self).loading == old(self).loading,
            final(self).selected == old(self).selected,
            final(self).scroll_offset == old(self).scroll_offset,
    {
        let ghost pv = parent@;
        let ghost sv = string_views(paths@);
        let list = ChildList { parent, paths };
        match find_list(&self.children, list.parent.as_str()) {
            Some(j) => {
                proof {
                    lemma_keyed_update(self.children@, list_key(), j as int, list);
                }
                self.children.set(j, list);
            },
            None => {
                proof {
                    lemma_keyed_push(self.children@, list_key(), list);
                }
                self.children.push(list);
            },
        }
        assert(self.children_view() =~= old(self).children_view().insert(pv, sv));
    }

    /// Applies the result of loading the listing of `parent`: the load is
    /// no longer pending; a known parent is marked loaded with the error, if
    /// any; on error its listing is dropped, otherwise every entry becomes a
    /// fresh node and the listing records their paths in order.
    pub fn apply_children_loaded(&mut self, parent: &str, children: Vec<DirectoryEntry>, error: Option<String>)
        requires
            old(self).wf(),
        ensures
            final(self).wf(),
            final(self).root == old(self).root,
            final(self).selected == old(self).selected,
            final(self).scroll_offset == old(self).scroll_offset,
            final(self).loading_view() == old(self).loading_view().remove(parent@),
            !old(self).nodes_view().dom().contains(parent@) ==> final(self).nodes == old(self).nodes
                && final(self).children == old(self).children,
            old(self).nodes_view().dom().contains(parent@) ==> ({
                let loaded = old(self).nodes_view().insert(
                    parent@,
                    FileNode { children_loaded: true, load_error: error, ..old(self).nodes_view()[parent@] },
                );
                if error is Some {
                    &&& final(self).nodes_view() == loaded
                    &&& final(self).children_view() == old(self).children_view().remove(parent@)
                } else {
                    &&& final(self).nodes_view() == insert_entries(loaded, children@)
                    &&& final(self).children_view() == old(self).children_view().insert(
                        parent@,
                        children@.map_values(|c: DirectoryEntry| c.path@),
                    )
                }
            }),
    {
        remove_loading(&mut self.loading, parent);
        let i = match find_node(&self.nodes, parent) {
            Some(i) => i,
            None => {
                proof {
                    lemma_keyed_absent(self.nodes@, node_key(), parent@);
                }
                return;
            },
        };
        proof {
            lemma_keyed_lookup(self.nodes@, node_key(), i as int);
        }
        let failed = error.is_some();
        let ghost before = self.nodes@;
        let ghost ev = error;
        proof {
            lemma_keyed_update(before, node_key(), i as int, FileNode { children_loaded: true, load_error: ev, ..before[i as int] });
        }
        self.nodes[i].children_loaded = true;
        self.nodes[i].load_error = error;
        assert(self.nodes@ =~= before.update(i as int, FileNode { children_loaded: true, load_error: ev, ..before[i as int] }));
        if failed {
            let _ = self.take_listing(parent);
            return;
        }
        let ghost loaded = self.nodes_view();
        let ghost cs = children@;
        let mut paths: Vec<String> = Vec::new();
        let mut rest = children;
        let total = rest.len();
        let mut k: usize = 0;
        while k < total
            invariant
                self.wf(),
                total == cs.len(),
                k <= cs.len(),
                rest@ == cs.skip(k as int),
                self.nodes_view() == insert_entries(loaded, cs.take(k as int)),
                string_views(paths@) == cs.take(k as int).map_values(|c: DirectoryEntry| c.path@),
                self.root == old(self).root,
                self.selected == old(self).selected,
                self.scroll_offset == old(self).scroll_offset,
                self.loading_view() == old(self).loading_view().remove(parent@),
                self.children == old(self).children,
            decreases cs.len() - k,
        {
            let child = rest.remove(0);
            assert(child == cs[k as int]);
            proof {
                assert(cs.take(k + 1).drop_last() =~= cs.take(k as int));
                assert(cs.take(k + 1).last() == child);
                assert(rest@ =~= cs.skip(k + 1));
            }
            let copy = copy_string(child.path.as_str());
            let ghost before = string_views(paths@);
            paths.push(copy);
            assert(string_views(paths@) =~= before.push(child.path@));
            assert(cs.take(k + 1).map_values(|c: DirectoryEntry| c.path@) =~= cs.take(k as int).map_values(
                |c: DirectoryEntry| c.path@,
            ).push(child.path@));
            let node = FileNode {
                path: child.path,
                name: child.name,
                is_dir: child.is_dir,
                expanded: false,
                children_loaded: false,
                load_error: None,
                git_status: None,
            };
            self.put_node(node);
            k = k + 1;
        }
        assert(cs.take(k as int) =~= cs);
        let p = copy_string(parent);
        self.put_listing(p, paths);
    }
}

/// The three maps the tree is read through.
pub struct TreeMaps {
    pub nodes: Map<Seq<char>, FileNode>,
    pub kids: Map<Seq<char>, Seq<Seq<char>>>,
    pub loading: Set<Seq<char>>,
}

impl FileTreeState {
    pub open spec fn maps(&self) -> TreeMaps {
        TreeMaps { nodes: self.nodes_view(), kids: self.children_view(), loading: self.loading_view() }
    }
}

/// `path` is no longer loaded nor loading; a known node for it keeps no
/// load error.
pub open spec fn settle(m: TreeMaps, path: Seq<char>) -> TreeMaps {
    TreeMaps {
        nodes: if m.nodes.dom().contains(path) {
            m.nodes.insert(path, FileNode { children_loaded: false, load_error: None, ..m.nodes[path] })
        } else {
            m.nodes
        },
        loading: m.loading.remove(path),
        ..m
    }
}

/// Size of the walk still below `path`: its listing, if any.
pub open spec fn listing_measure(m: TreeMaps, path: Seq<char>) -> nat {
    if m.kids.dom().contains(path) {
        m.kids[path].len() + 1
    } else {
        0
    }
}

/// Invalidation of `path`: its listing is dropped, each listed child is
/// invalidated in turn when it is a directory and then forgotten, and
/// `path` itself is settled. `fuel` bounds the depth; one unit per cached
/// listing is always enough, since each level drops one.
pub open spec fn invalidate_tree(m: TreeMaps, path: Seq<char>, fuel: nat) -> TreeMaps
    decreases fuel, listing_measure(m, path),
{
    if m.kids.dom().contains(path) {
        let ks = m.kids[path];
        settle(invalidate_list(TreeMaps { kids: m.kids.remove(path), ..m }, ks, fuel), path)
    } else {
        settle(m, path)
    }
}

/// Invalidation of the listed children `ks`, in order.
pub open spec fn invalidate_list(m: TreeMaps, ks: Seq<Seq<char>>, fuel: nat) -> TreeMaps
    decreases fuel, ks.len(),
{
    if ks.len() == 0 {
        m
    } else {
        let c = ks[0];
        let m1 = if m.nodes.dom().contains(c) && m.nodes[c].is_dir {
            if fuel > 0 {
                invalidate_tree(m, c, (fuel - 1) as nat)
            } else {
                settle(TreeMaps { kids: m.kids.remove(c), ..m }, c)
            }
        } else {
            m
        };
        invalidate_list(TreeMaps { nodes: m1.nodes.remove(c), ..m1 }, ks.drop_first(), fuel)
    }
}

impl FileTreeState {
    /// Settles `path`: not loaded, no load error, not loading.
    fn settle_node(&mut self, path: &str)
        requires
            old(self).wf(),
        ensures
            final(self).wf(),
            final(self).maps() == settle(old(self).maps(), path@),
            final(self).children == old(self).children,
            final(self).root == old(self).root,
            final(self).selected == old(self).selected,
            final(self).scroll_offset == old(self).scroll_offset,
    {
        match find_node(&self.nodes, path) {
            Some(i) => {
                let ghost before = self.nodes@;
                proof {
                    lemma_keyed_lookup(before, node_key(), i as int);
                    lemma_keyed_update(
                        before,
                        node_key(),
                        i as int,
                        FileNode { children_loaded: false, load_error: None, ..before[i as int] },
                    );
                }
                self.nodes[i].children_loaded = false;
                self.nodes[i].load_error = None;
                assert(self.nodes@ =~= before.update(
                    i as int,
                    FileNode { children_loaded: false, load_error: None, ..before[i as int] },
                ));
            },
            None => {
                proof {
                    lemma_keyed_absent(self.nodes@, node_key(), path@);
                }
            },
        }
        remove_loading(&mut self.loading, path);
        assert(self.maps() == settle(old(self).maps(), path@));
    }

    fn invalidate_rec(&mut self, path: &str, fuel: usize)
        requires
            old(self).wf(),
            old(self).children@.len() <= fuel,
        ensures
            final(self).wf(),
            final(self).children@.len() <= old(self).children@.len(),
            final(self).maps() == invalidate_tree(old(self).maps(), path@, fuel as nat),
            final(self).root == old(self).root,
            final(self).selected == old(self).selected,
            final(self).scroll_offset == old(self).scroll_offset,
        decreases fuel,
    {
        let ghost m0 = self.maps();
        match self.take_listing(path) {
            None => {
                assert(self.maps() == m0);
                self.settle_node(path);
            },
            Some(ks) => {
                let ghost kv = string_views(ks@);
                let ghost m1 = TreeMaps { kids: m0.kids.remove(path@), ..m0 };
                assert(self.maps() == m1);
                let mut k: usize = 0;
                assert(kv.skip(0) =~= kv);
                while k < ks.len()
                    invariant
                        self.wf(),
                        k <= ks@.len(),
                        kv == string_views(ks@),
                        fuel > 0,
                        self.children@.len() <= fuel - 1,
                        self.children@.len() + 1 <= old(self).children@.len(),
                        invalidate_list(self.maps(), kv.skip(k as int), fuel as nat) == invalidate_list(m1, kv, fuel as nat),
                        self.root == old(self).root,
                        self.selected == old(self).selected,
                        self.scroll_offset == old(self).scroll_offset,
                    decreases ks@.len() - k,
                {
                    let c = ks[k].as_str();
                    let ghost m = self.maps();
                    proof {
                        assert(kv.skip(k as int)[0] == c@);
                        assert(kv.skip(k as int).drop_first() =~= kv.skip(k + 1));
                    }
                    let is_dir = match find_node(&self.nodes, c) {
                        Some(i) => {
                            proof {
                                lemma_keyed_lookup(self.nodes@, node_key(), i as int);
                            }
                            self.nodes[i].is_dir
                        },
                        None => {
                            proof {
                                lemma_keyed_absent(self.nodes@, node_key(), c@);
                            }
                            false
                        },
                    };
                    if is_dir {
                        self.invalidate_rec(c, fuel - 1);
                    }
                    let ghost m_mid = self.maps();
                    self.drop_node(c);
                    assert(self.maps() == TreeMaps { nodes: m_mid.nodes.remove(c@), ..m_mid });
                    k = k + 1;
                }
                assert(kv.skip(k as int) =~= Seq::<Seq<char>>::empty());
                self.settle_node(path);
            },
        }
    }

    /// Forgets the cached listing below `path`, and everything under it,
    /// so that it is loaded again.
    pub fn invalidate_children(&mut self, path: &str)
        requires
            old(self).wf(),
        ensures
            final(self).wf(),
            final(self).maps() == invalidate_tree(old(self).maps(), path@, old(self).children@.len() as nat),
            final(self).root == old(self).root,
            final(self).selected == old(self).selected,
            final(self).scroll_offset == old(self).scroll_offset,
    {
        let fuel = self.children.len();
        self.invalidate_rec(path, fuel);
    }
}

/// Entries that count: untracked ones only when they are shown.
pub open spec fn shown_entries(es: Seq<(Seq<char>, GitFileStatus)>, show_untracked: bool) -> Seq<(Seq<char>, GitFileStatus)>
    decreases es.len(),
{
    if es.len() == 0 {
        Seq::empty()
    } else {
        let rest = shown_entries(es.drop_last(), show_untracked);
        if !show_untracked && es.last().1 == GitFileStatus::Untracked {
            rest
        } else {
            rest.push(es.last())
        }
    }
}

/// Backslashes turned into slashes.
pub open spec fn forward_slashes(s: Seq<char>) -> Seq<char> {
    s.map_values(|c: char| if c == '\\' { '/' } else { c })
}

/// Path of `p` below `root` with forward slashes; none outside the root or
/// for the root itself.
pub open spec fn relative_repo_path(root: Seq<char>, p: Seq<char>) -> Option<Seq<char>> {
    match path_strip_prefix(p, root) {
        Some(x) => if x.len() > 0 {
            Some(forward_slashes(x))
        } else {
            None
        },
        None => None,
    }
}

/// The status a node shows: none for directories and paths outside the
/// repository; otherwise the last shown entry for its relative path.
pub open spec fn status_for(
    n: FileNode,
    root: Seq<char>,
    es: Seq<(Seq<char>, GitFileStatus)>,
    show_untracked: bool,
) -> Option<GitFileStatus> {
    if n.is_dir {
        None
    } else {
        match relative_repo_path(root, n.path@) {
            Some(r) => last_status(shown_entries(es, show_untracked), r),
            None => None,
        }
    }
}

/// Every node takes the status `status_for` gives it.
pub open spec fn with_statuses(
    root: Seq<char>,
    es: Seq<(Seq<char>, GitFileStatus)>,
    show_untracked: bool,
) -> spec_fn(FileNode) -> FileNode {
    |n: FileNode| FileNode { git_status: status_for(n, root, es, show_untracked), ..n }
}

/// A known node at `full` loses its status.
pub open spec fn clear_status(m: Map<Seq<char>, FileNode>, full: Seq<char>) -> Map<Seq<char>, FileNode> {
    if m.dom().contains(full) {
        m.insert(full, FileNode { git_status: None, ..m[full] })
    } else {
        m
    }
}

/// A known file at `full` takes status `st`.
pub open spec fn set_status(m: Map<Seq<char>, FileNode>, full: Seq<char>, st: GitFileStatus) -> Map<Seq<char>, FileNode> {
    if m.dom().contains(full) && !m[full].is_dir {
        m.insert(full, FileNode { git_status: Some(st), ..m[full] })
    } else {
        m
    }
}

/// Statuses cleared for each removed path, joined to the root, in turn.
pub open spec fn clear_statuses(m: Map<Seq<char>, FileNode>, root: Seq<char>, removed: Seq<Seq<char>>) -> Map<Seq<char>, FileNode>
    decreases removed.len(),
{
    if removed.len() == 0 {
        m
    } else {
        clear_status(clear_statuses(m, root, removed.drop_last()), spec_path_join(root, removed.last()))
    }
}

/// Statuses set for each changed entry in turn (untracked ones only when
/// shown).
pub open spec fn set_statuses(
    m: Map<Seq<char>, FileNode>,
    root: Seq<char>,
    changed: Seq<(Seq<char>, GitFileStatus)>,
    show_untracked: bool,
) -> Map<Seq<char>, FileNode>
    decreases changed.len(),
{
    if changed.len() == 0 {
        m
    } else {
        let before = set_statuses(m, root, changed.drop_last(), show_untracked);
        let e = changed.last();
        if !show_untracked && e.1 == GitFileStatus::Untracked {
            before
        } else {
            set_status(before, spec_path_join(root, e.0), e.1)
        }
    }
}

impl FileTreeState {
    /// Applies the statuses of changed files to the nodes in place: removed
    /// paths lose their status, then changed files take theirs.
    pub fn apply_git_status_patch(&mut self, repo_root: &str, patch: &GitFileStatusPatch, show_untracked: bool)
        requires
            old(self).wf(),
        ensures
            final(self).wf(),
            final(self).nodes_view() == set_statuses(
                clear_statuses(
                    old(self).nodes_view(),
                    repo_root@,
                    patch.removed@.map_values(|s: String| s@),
                ),
                repo_root@,
                entry_views(patch.changed@),
                show_untracked,
            ),
            final(self).root == old(self).root,
            final(self).children == old(self).children,
            final(self).loading == old(self).loading,
            final(self).selected == old(self).selected,
            final(self).scroll_offset == old(self).scroll_offset,
    {
        let ghost rv = patch.removed@.map_values(|s: String| s@);
        let mut i: usize = 0;
        while i < patch.removed.len()
            invariant
                self.wf(),
                i <= patch.removed@.len(),
                rv == patch.removed@.map_values(|s: String| s@),
                self.nodes_view() == clear_statuses(old(self).nodes_view(), repo_root@, rv.take(i as int)),
                self.root == old(self).root,
                self.children == old(self).children,
                self.loading == old(self).loading,
                self.selected == old(self).selected,
                self.scroll_offset == old(self).scroll_offset,
            decreases patch.removed@.len() - i,
        {
            proof {
                assert(rv.take(i + 1).drop_last() =~= rv.take(i as int));
                assert(rv.take(i + 1).last() == patch.removed@[i as int]@);
            }
            let full = path_join(repo_root, patch.removed[i].as_str());
            match find_node(&self.nodes, full.as_str()) {
                Some(k) => {
                    let ghost before = self.nodes@;
                    proof {
                        lemma_keyed_lookup(before, node_key(), k as int);
                        lemma_keyed_update(before, node_key(), k as int, FileNode { git_status: None, ..before[k as int] });
                    }
                    self.nodes[k].git_status = None;
                    assert(self.nodes@ =~= before.update(k as int, FileNode { git_status: None, ..before[k as int] }));
                },
                None => {
                    proof {
                        lemma_keyed_absent(self.nodes@, node_key(), full@);
                    }
                },
            }
            i = i + 1;
        }
        assert(rv.take(i as int) =~= rv);
        let ghost cleared = self.nodes_view();
        let ghost cv = entry_views(patch.changed@);
        let mut j: usize = 0;
        while j < patch.changed.len()
            invariant
                self.wf(),
                j <= patch.changed@.len(),
                cv == entry_views(patch.changed@),
                self.nodes_view() == set_statuses(cleared, repo_root@, cv.take(j as int), show_untracked),
                self.root == old(self).root,
                self.children == old(self).children,
                self.loading == old(self).loading,
                self.selected == old(self).selected,
                self.scroll_offset == old(self).scroll_offset,
            decreases patch.changed@.len() - j,
        {
            proof {
                assert(cv.take(j + 1).drop_last() =~= cv.take(j as int));
                assert(cv.take(j + 1).last() == cv[j as int]);
            }
            let entry = &patch.changed[j];
            if show_untracked || entry.status != GitFileStatus::Untracked {
                let full = path_join(repo_root, entry.path.as_str());
                match find_node(&self.nodes, full.as_str()) {
                    Some(k) => {
                        proof {
                            lemma_keyed_lookup(self.nodes@, node_key(), k as int);
                        }
                        if !self.nodes[k].is_dir {
                            let ghost before = self.nodes@;
                            proof {
                                lemma_keyed_update(
                                    before,
                                    node_key(),
                                    k as int,
                                    FileNode { git_status: Some(entry.status), ..before[k as int] },
                                );
                            }
                            self.nodes[k].git_status = Some(entry.status);
                            assert(self.nodes@ =~= before.update(
                                k as int,
                                FileNode { git_status: Some(entry.status), ..before[k as int] },
                            ));
                        }
                    },
                    None => {
                        proof {
                            lemma_keyed_absent(self.nodes@, node_key(), full@);
                        }
                    },
                }
            }
            j = j + 1;
        }
        assert(cv.take(j as int) =~= cv);
    }

    /// Recomputes every node's status from a full status list: directories
    /// and paths outside the repository show none; files show the last
    /// shown entry for their relative path.
    pub fn apply_git_statuses(&mut self, repo_root: &str, entries: &[GitFileEntry], show_untracked: bool)
        requires
            old(self).wf(),
        ensures
            final(self).wf(),
            final(self).nodes_view() == old(self).nodes_view().map_values(
                with_statuses(repo_root@, entry_views(entries@), show_untracked),
            ),
            final(self).root == old(self).root,
            final(self).children == old(self).children,
            final(self).loading == old(self).loading,
            final(self).selected == old(self).selected,
            final(self).scroll_offset == old(self).scroll_offset,
    {
        let ghost ev = entry_views(entries@);
        let mut shown: Vec<GitFileEntry> = Vec::new();
        let mut e: usize = 0;
        while e < entries.len()
            invariant
                e <= entries@.len(),
                ev == entry_views(entries@),
                entry_views(shown@) == shown_entries(ev.take(e as int), show_untracked),
            decreases entries.len() - e,
        {
            proof {
                assert(ev.take(e + 1).drop_last() =~= ev.take(e as int));
                assert(ev.take(e + 1).last() == ev[e as int]);
            }
            if show_untracked || entries[e].status != GitFileStatus::Untracked {
                let ghost before = entry_views(shown@);
                shown.push(GitFileEntry { path: copy_string(entries[e].path.as_str()), status: entries[e].status });
                assert(entry_views(shown@) =~= before.push(ev[e as int]));
            }
            e = e + 1;
        }
        assert(ev.take(e as int) =~= ev);
        let ghost f = with_statuses(repo_root@, ev, show_untracked);
        let ghost start = self.nodes@;
        let mut i: usize = 0;
        while i < self.nodes.len()
            invariant
                i <= self.nodes@.len(),
                self.nodes@.len() == start.len(),
                keys_unique(start, node_key()),
                start == old(self).nodes@,
                entry_views(shown@) == shown_entries(ev, show_untracked),
                f == with_statuses(repo_root@, ev, show_untracked),
                forall|j: int| 0 <= j < i ==> #[trigger] self.nodes@[j] == f(start[j]),
                forall|j: int| i <= j < self.nodes@.len() ==> #[trigger] self.nodes@[j] == start[j],
                self.root == old(self).root,
                self.children == old(self).children,
                self.loading == old(self).loading,
                self.selected == old(self).selected,
                self.scroll_offset == old(self).scroll_offset,
            decreases self.nodes@.len() - i,
        {
            let status = if self.nodes[i].is_dir {
                None
            } else {
                match relative_path_of(repo_root, self.nodes[i].path.as_str()) {
                    Some(rel) => last_status_in(&shown, rel.as_str()),
                    None => None,
                }
            };
            let ghost before = self.nodes@;
            self.nodes[i].git_status = status;
            assert(self.nodes@ =~= before.update(i as int, f(start[i as int])));
            i = i + 1;
        }
        proof {
            lemma_keyed_pointwise(start, self.nodes@, node_key(), f);
        }
    }
}

/// The path of `path` below `root`, as `relative_repo_path` describes it.
fn relative_path_of(root: &str, path: &str) -> (r: Option<String>)
    ensures
        opt_view(r) == relative_repo_path(root@, path@),
{
    match strip_path_prefix(path, root) {
        Some(x) => {
            let v = str_chars(x.as_str());
            if v.len() == 0 {
                return None;
            }
            let mut out: Vec<char> = Vec::new();
            let mut i: usize = 0;
            while i < v.len()
                invariant
                    i <= v@.len(),
                    out@ == forward_slashes(v@).take(i as int),
                decreases v.len() - i,
            {
                let c = v[i];
                out.push(if c == '\\' { '/' } else { c });
                i = i + 1;
                assert(out@ =~= forward_slashes(v@).take(i as int));
            }
            assert(forward_slashes(v@).take(i as int) =~= forward_slashes(v@));
            Some(string_from_chars(out.as_slice()))
        },
        None => None,
    }
}

/// Status of the last entry for `path`.
fn last_status_in(entries: &Vec<GitFileEntry>, path: &str) -> (r: Option<GitFileStatus>)
    ensures
        r == last_status(entry_views(entries@), path@),
{
    let ghost v = entry_views(entries@);
    let mut i: usize = entries.len();
    assert(v.take(i as int) =~= v);
    while i > 0
        invariant
            i <= entries@.len(),
            v == entry_views(entries@),
            last_status(v, path@) == last_status(v.take(i as int), path@),
        decreases i,
    {
        assert(v.take(i as int).drop_last() =~= v.take(i - 1));
        if str_eq(entries[i - 1].path.as_str(), path) {
            return Some(entries[i - 1].status);
        }
        i = i - 1;
    }
    None
}

impl Default for FileTreeState {
    /// A tree rooted at the current directory.
    fn default() -> (r: Self)
        ensures
            r.wf(),
            r.root@ == "."@,
            r.nodes_view().dom() == set!["."@],
            r.children_view() == Map::<Seq<char>, Seq<Seq<char>>>::empty(),
            r.selected is None,
            r.scroll_offset == 0,
            r.loading_view() == Set::<Seq<char>>::empty(),
    {
        let mut root = String::new();
        push_str(&mut root, ".");
        FileTreeState::at_root(root)
    }
}

/// Expanding a directory that had to be loaded queues it, so expanding it
/// again asks for nothing more.
pub proof fn law_expand_requests_load_once(
    a: FileTreeState,
    b: FileTreeState,
    c: FileTreeState,
    path: Seq<char>,
    second: ExpandAction,
)
    requires
        a.wf(),
        expand_effect(a, b, path, ExpandAction::NeedsLoad),
        expand_effect(b, c, path, second),
    ensures
        second == ExpandAction::AlreadyExpanded,
{
}

proof fn lemma_invalidate_keeps_out(m: TreeMaps, path: Seq<char>, fuel: nat, k: Seq<char>)
    ensures
        !m.kids.dom().contains(k) ==> !invalidate_tree(m, path, fuel).kids.dom().contains(k),
    decreases fuel, listing_measure(m, path),
{
    if m.kids.dom().contains(path) {
        let ks = m.kids[path];
        lemma_invalidate_list_keeps_out(TreeMaps { kids: m.kids.remove(path), ..m }, ks, fuel, k);
    }
}

proof fn lemma_invalidate_list_keeps_out(m: TreeMaps, ks: Seq<Seq<char>>, fuel: nat, k: Seq<char>)
    ensures
        !m.kids.dom().contains(k) ==> !invalidate_list(m, ks, fuel).kids.dom().contains(k),
    decreases fuel, ks.len(),
{
    if ks.len() > 0 {
        let c = ks[0];
        let m1 = if m.nodes.dom().contains(c) && m.nodes[c].is_dir {
            if fuel > 0 {
                lemma_invalidate_keeps_out(m, c, (fuel - 1) as nat, k);
                invalidate_tree(m, c, (fuel - 1) as nat)
            } else {
                settle(TreeMaps { kids: m.kids.remove(c), ..m }, c)
            }
        } else {
            m
        };
        lemma_invalidate_list_keeps_out(TreeMaps { nodes: m1.nodes.remove(c), ..m1 }, ks.drop_first(), fuel, k);
    }
}

/// After invalidation a directory has no cached listing and no pending
/// load, so expanding it loads it afresh.
pub proof fn law_invalidate_forgets_listing(m: TreeMaps, path: Seq<char>, fuel: nat)
    ensures
        !invalidate_tree(m, path, fuel).kids.dom().contains(path),
        !invalidate_tree(m, path, fuel).loading.contains(path),
        m.nodes.dom().contains(path) ==> invalidate_tree(m, path, fuel).nodes.dom().contains(path) ==> !invalidate_tree(
            m,
            path,
            fuel,
        ).nodes[path].children_loaded,
{
    if m.kids.dom().contains(path) {
        let ks = m.kids[path];
        lemma_invalidate_list_keeps_out(TreeMaps { kids: m.kids.remove(path), ..m }, ks, fuel, path);
    }
}


/// The rows of two lists of paths one after the other are the rows of the
/// first list followed by the rows of the second.
pub proof fn law_rows_list_concat(
    nodes: Map<Seq<char>, FileNode>,
    kids: Map<Seq<char>, Seq<Seq<char>>>,
    a: Seq<Seq<char>>,
    b: Seq<Seq<char>>,
    depth: nat,
    fuel: nat,
)
    ensures
        rows_list(nodes, kids, a + b, depth, fuel) == rows_list(nodes, kids, a, depth, fuel) + rows_list(
            nodes,
            kids,
            b,
            depth,
            fuel,
        ),
    decreases b.len(),
{
    if b.len() == 0 {
        assert(a + b =~= a);
        assert(rows_list(nodes, kids, a, depth, fuel) + rows_list(nodes, kids, b, depth, fuel) =~= rows_list(
            nodes,
            kids,
            a,
            depth,
            fuel,
        ));
    } else {
        assert((a + b).drop_last() =~= a + b.drop_last());
        assert((a + b).last() == b.last());
        law_rows_list_concat(nodes, kids, a, b.drop_last(), depth, fuel);
        let ra = rows_list(nodes, kids, a, depth, fuel);
        let rb = rows_list(nodes, kids, b.drop_last(), depth, fuel);
        let rl = rows_from(nodes, kids, b.last(), depth, fuel);
        assert(ra + rb + rl =~= ra + (rb + rl));
    }
}

/// The rows of a one-path list are the rows of that path.
pub proof fn law_rows_list_single(
    nodes: Map<Seq<char>, FileNode>,
    kids: Map<Seq<char>, Seq<Seq<char>>>,
    c: Seq<char>,
    depth: nat,
    fuel: nat,
)
    ensures
        rows_list(nodes, kids, seq![c], depth, fuel) == rows_from(nodes, kids, c, depth, fuel),
{
    let one = seq![c];
    assert(one.drop_last() =~= Seq::<Seq<char>>::empty());
    assert(one.last() == c);
    assert(rows_list(nodes, kids, one.drop_last(), depth, fuel) == Seq::<(Seq<char>, nat)>::empty());
    assert(rows_list(nodes, kids, one, depth, fuel) == rows_list(nodes, kids, one.drop_last(), depth, fuel)
        + rows_from(nodes, kids, c, depth, fuel));
    assert(Seq::<(Seq<char>, nat)>::empty() + rows_from(nodes, kids, c, depth, fuel) =~= rows_from(
        nodes,
        kids,
        c,
        depth,
        fuel,
    ));
}

/// Below an expanded directory with a cached listing, the directory's row
/// comes first, then the rows of its listed children in listing order: the
/// rows of the children before the `i`-th, those of the `i`-th, then those
/// of the children after it. A known child `i` gets its row, one level
/// deeper, before the row of any later known child `j`.
pub proof fn law_listing_rows_in_order(
    nodes: Map<Seq<char>, FileNode>,
    kids: Map<Seq<char>, Seq<Seq<char>>>,
    p: Seq<char>,
    depth: nat,
    fuel: nat,
    i: int,
    j: int,
)
    requires
        fuel > 1,
        nodes.dom().contains(p),
        nodes[p].expanded,
        nodes[p].children_loaded,
        kids.dom().contains(p),
        0 <= i < j < kids[p].len(),
        nodes.dom().contains(kids[p][i]),
        nodes.dom().contains(kids[p][j]),
    ensures
        rows_from(nodes, kids, p, depth, fuel) == seq![(p, depth)] + rows_list(
            nodes,
            kids,
            kids[p].take(i),
            depth + 1,
            (fuel - 1) as nat,
        ) + rows_from(nodes, kids, kids[p][i], depth + 1, (fuel - 1) as nat) + rows_list(
            nodes,
            kids,
            kids[p].skip(i + 1),
            depth + 1,
            (fuel - 1) as nat,
        ),
        exists|a: int, b: int|
            0 < a < b < rows_from(nodes, kids, p, depth, fuel).len() && rows_from(nodes, kids, p, depth, fuel)[a]
                == (kids[p][i], depth + 1) && rows_from(nodes, kids, p, depth, fuel)[b] == (kids[p][j], depth + 1),
{
    let ks = kids[p];
    let d1 = depth + 1;
    let f1 = (fuel - 1) as nat;
    let rows = rows_from(nodes, kids, p, depth, fuel);
    assert(rows == seq![(p, depth)] + rows_list(nodes, kids, ks, d1, f1));
    let l0 = rows_list(nodes, kids, ks.take(i), d1, f1);
    let ri = rows_from(nodes, kids, ks[i], d1, f1);
    let rest = ks.skip(i + 1);
    let lr = rows_list(nodes, kids, rest, d1, f1);
    assert(ks =~= ks.take(i) + seq![ks[i]] + rest);
    law_rows_list_concat(nodes, kids, ks.take(i) + seq![ks[i]], rest, d1, f1);
    law_rows_list_concat(nodes, kids, ks.take(i), seq![ks[i]], d1, f1);
    law_rows_list_single(nodes, kids, ks[i], d1, f1);
    assert(rows =~= seq![(p, depth)] + l0 + ri + lr);
    // the later child's rows within those after the `i`-th
    let m = j - i - 1;
    assert(rest[m] == ks[j]);
    let l1 = rows_list(nodes, kids, rest.take(m), d1, f1);
    let rj = rows_from(nodes, kids, rest[m], d1, f1);
    let l2 = rows_list(nodes, kids, rest.skip(m + 1), d1, f1);
    assert(rest =~= rest.take(m) + seq![rest[m]] + rest.skip(m + 1));
    law_rows_list_concat(nodes, kids, rest.take(m) + seq![rest[m]], rest.skip(m + 1), d1, f1);
    law_rows_list_concat(nodes, kids, rest.take(m), seq![rest[m]], d1, f1);
    law_rows_list_single(nodes, kids, rest[m], d1, f1);
    assert(lr =~= l1 + rj + l2);
    assert(ri.len() > 0 && ri[0] == (ks[i], d1));
    assert(rj.len() > 0 && rj[0] == (ks[j], d1));
    let a: int = 1 + l0.len() as int;
    let b: int = a + ri.len() as int + l1.len() as int;
    assert(rows =~= seq![(p, depth)] + l0 + ri + (l1 + rj + l2));
    assert(rows[a] == ri[0]);
    assert(rows[b] == rj[0]);
}


/// A known node that is not an expanded directory with a cached listing
/// shows one row, its own; an unknown path shows none.
pub proof fn law_unopened_node_rows(
    nodes: Map<Seq<char>, FileNode>,
    kids: Map<Seq<char>, Seq<Seq<char>>>,
    p: Seq<char>,
    depth: nat,
    fuel: nat,
)
    requires
        fuel > 0,
    ensures
        !nodes.dom().contains(p) ==> rows_from(nodes, kids, p, depth, fuel).len() == 0,
        nodes.dom().contains(p) && !(nodes[p].expanded && nodes[p].children_loaded && kids.dom().contains(p))
            ==> rows_from(nodes, kids, p, depth, fuel) == seq![(p, depth)],
{
}

} // verus!
