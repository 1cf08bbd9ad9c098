//! State and decisions of the terminal interface.
//!
//! The interface shows one of five tabs (users, pages, the block tree of a
//! page, databases, search). Key presses change the state here and name the
//! outside work to do next (a load from Notion, quitting); the caller does
//! that work and hands the outcome back.
use crate::ir::inline::opt_view;
use crate::json::{as_str_spec, get_spec, JsonValue, SpecJson};
use crate::models::block::{kind_name, lemma_nblocks_view, nblocks_view, Block, SpecNBlock};
use crate::models::common::{rich_view, user_type_view, SpecUser, SpecUserType, User, UserType};
use crate::models::database::{plain_of_spans, Database};
use crate::models::page::{properties_title, Page};
use crate::text::{decimal, extend_str, push_decimal, string_of};
use vstd::prelude::*;

verus! {

broadcast use vstd::std_specs::vec::group_vec_axioms;

/// The tabs of the interface, in display order.
#[derive(Debug, Clone, Copy, PartialEq, Eq)]
pub enum TabsState {
    Users,
    Pages,
    BlocksTree,
    Databases,
    Search,
}

/// The number of tabs.
pub const TAB_COUNT: usize = 5;

impl TabsState {
    /// The position of a tab.
    pub open spec fn position(self) -> nat {
        match self {
            TabsState::Users => 0,
            TabsState::Pages => 1,
            TabsState::BlocksTree => 2,
            TabsState::Databases => 3,
            TabsState::Search => 4,
        }
    }

    /// The tab at a position; the users tab for any other number.
    pub open spec fn at(i: int) -> TabsState {
        if i == 1 {
            TabsState::Pages
        } else if i == 2 {
            TabsState::BlocksTree
        } else if i == 3 {
            TabsState::Databases
        } else if i == 4 {
            TabsState::Search
        } else {
            TabsState::Users
        }
    }

    /// The tab titles, in display order.
    pub fn titles() -> (t: Vec<&'static str>)
        ensures
            t@.len() == 5,
            t@[0]@ == "Users"@,
            t@[1]@ == "Pages"@,
            t@[2]@ == "Blocks"@,
            t@[3]@ == "DBs"@,
            t@[4]@ == "Search"@,
    {
        vec!["Users", "Pages", "Blocks", "DBs", "Search"]
    }

    /// The position of this tab.
    pub fn index(&self) -> (i: usize)
        ensures
            i == self.position(),
    {
        match self {
            TabsState::Users => 0,
            TabsState::Pages => 1,
            TabsState::BlocksTree => 2,
            TabsState::Databases => 3,
            TabsState::Search => 4,
        }
    }

    /// The tab at position `i`; the users tab for any other number.
    pub fn from_index(i: usize) -> (t: Self)
        ensures
            t == Self::at(i as int),
    {
        match i {
            1 => TabsState::Pages,
            2 => TabsState::BlocksTree,
            3 => TabsState::Databases,
            4 => TabsState::Search,
            _ => TabsState::Users,
        }
    }

    /// The tab after this one, wrapping around.
    pub fn next(&self) -> (t: Self)
        ensures
            t == Self::at(((self.position() + 1) % 5) as int),
    {
        TabsState::from_index((self.index() + 1) % TAB_COUNT)
    }

    /// The tab before this one, wrapping around.
    pub fn previous(&self) -> (t: Self)
        ensures
            t == Self::at(((self.position() + 4) % 5) as int),
    {
        TabsState::from_index((self.index() + TAB_COUNT - 1) % TAB_COUNT)
    }
}

/// A tab is the one at its own position.
pub proof fn lemma_tab_position_round_trip(t: TabsState)
    ensures
        TabsState::at(t.position() as int) == t,
{
}

/// Going to the next tab and back returns to the same tab, and so does
/// going back and then forward.
pub proof fn lemma_tab_next_previous(t: TabsState)
    ensures
        TabsState::at(((TabsState::at(((t.position() + 1) % 5) as int).position() + 4) % 5) as int) == t,
        TabsState::at(((TabsState::at(((t.position() + 4) % 5) as int).position() + 1) % 5) as int) == t,
{
}

/// A block in the tree of the blocks tab: what is shown of it, whether it
/// is expanded, and its loaded children.
#[derive(Debug)]
pub struct TreeNode {
    /// Nesting depth, zero at the top level.
    pub indent: usize,
    pub id: String,
    /// The block's type name, such as `paragraph`.
    pub kind: String,
    pub has_children: bool,
    pub in_trash: bool,
    pub expanded: bool,
    pub children: Vec<TreeNode>,
}

/// The content of a [`TreeNode`].
pub struct SpecTree {
    pub indent: int,
    pub id: Seq<char>,
    pub kind: Seq<char>,
    pub has_children: bool,
    pub in_trash: bool,
    pub expanded: bool,
    pub children: Seq<SpecTree>,
}

impl View for TreeNode {
    type V = SpecTree;

    open spec fn view(&self) -> SpecTree
        decreases self, 1nat,
    {
        SpecTree {
            indent: self.indent as int,
            id: self.id@,
            kind: self.kind@,
            has_children: self.has_children,
            in_trash: self.in_trash,
            expanded: self.expanded,
            children: trees_view(self.children@),
        }
    }
}

/// The contents of a sequence of nodes.
pub open spec fn trees_view(s: Seq<TreeNode>) -> Seq<SpecTree>
    decreases s, 0nat,
{
    if s.len() == 0 {
        Seq::empty()
    } else {
        trees_view(s.subrange(0, s.len() - 1)).push(s[s.len() - 1]@)
    }
}

/// Node views keep length and position.
pub proof fn lemma_trees_view(s: Seq<TreeNode>)
    ensures
        trees_view(s).len() == s.len(),
        forall|j: int| 0 <= j < s.len() ==> #[trigger] trees_view(s)[j] == s[j]@,
    decreases s.len(),
{
    if s.len() > 0 {
        lemma_trees_view(s.subrange(0, s.len() - 1));
        assert(trees_view(s) == trees_view(s.subrange(0, s.len() - 1)).push(s[s.len() - 1]@));
    }
}

/// What a row of the flattened tree shows of its node.
#[derive(Debug, Clone, PartialEq, Eq)]
pub struct FlatRow {
    pub indent: usize,
    pub id: String,
    pub kind: String,
    pub has_children: bool,
    pub in_trash: bool,
    pub expanded: bool,
}

/// The content of a [`FlatRow`].
pub struct SpecFlatRow {
    pub indent: int,
    pub id: Seq<char>,
    pub kind: Seq<char>,
    pub has_children: bool,
    pub in_trash: bool,
    pub expanded: bool,
}

impl View for FlatRow {
    type V = SpecFlatRow;

    open spec fn view(&self) -> SpecFlatRow {
        SpecFlatRow {
            indent: self.indent as int,
            id: self.id@,
            kind: self.kind@,
            has_children: self.has_children,
            in_trash: self.in_trash,
            expanded: self.expanded,
        }
    }
}

/// The contents of a sequence of rows.
pub open spec fn rows_view(s: Seq<FlatRow>) -> Seq<SpecFlatRow> {
    Seq::new(s.len(), |i: int| s[i]@)
}

/// The row of a node.
pub open spec fn row_of(n: SpecTree) -> SpecFlatRow {
    SpecFlatRow {
        indent: n.indent,
        id: n.id,
        kind: n.kind,
        has_children: n.has_children,
        in_trash: n.in_trash,
        expanded: n.expanded,
    }
}

/// The visible nodes of a forest, in display order: each node, followed by
/// the visible nodes below it when it is expanded.
pub open spec fn flat_seq(s: Seq<SpecTree>) -> Seq<SpecTree>
    decreases s, 1nat,
{
    if s.len() == 0 {
        Seq::empty()
    } else {
        flat_node(s[0]) + flat_seq(s.subrange(1, s.len() as int))
    }
}

/// The visible nodes of one node: itself, then its children's when it is
/// expanded.
pub open spec fn flat_node(n: SpecTree) -> Seq<SpecTree>
    decreases n, 2nat,
{
    if n.expanded {
        seq![n] + flat_seq(n.children)
    } else {
        seq![n]
    }
}

/// The rows the tab shows for a forest.
pub open spec fn flat_rows(s: Seq<SpecTree>) -> Seq<SpecFlatRow> {
    flat_seq(s).map_values(|n: SpecTree| row_of(n))
}

/// A change to the node at a position of the flattened tree.
#[derive(Debug)]
pub enum TreeEdit {
    /// Collapse it and forget its children.
    Collapse,
    /// Expand it with the given children.
    ExpandWith(Vec<TreeNode>),
    /// Expand it, keeping its children.
    Expand,
}

/// The content of a [`TreeEdit`].
pub enum SpecEdit {
    Collapse,
    ExpandWith(Seq<SpecTree>),
    Expand,
}

impl View for TreeEdit {
    type V = SpecEdit;

    open spec fn view(&self) -> SpecEdit {
        match self {
            TreeEdit::Collapse => SpecEdit::Collapse,
            TreeEdit::ExpandWith(c) => SpecEdit::ExpandWith(trees_view(c@)),
            TreeEdit::Expand => SpecEdit::Expand,
        }
    }
}

/// A node after an edit.
pub open spec fn edited(n: SpecTree, e: SpecEdit) -> SpecTree {
    match e {
        SpecEdit::Collapse => SpecTree { expanded: false, children: Seq::empty(), ..n },
        SpecEdit::ExpandWith(c) => SpecTree { expanded: true, children: c, ..n },
        SpecEdit::Expand => SpecTree { expanded: true, ..n },
    }
}

/// A forest after editing the node at position `k` of its flattened form;
/// unchanged when there is no such node.
pub open spec fn edit_seq(s: Seq<SpecTree>, k: int, e: SpecEdit) -> Seq<SpecTree>
    decreases s, 1nat,
{
    if s.len() == 0 {
        s
    } else {
        let size = flat_node(s[0]).len();
        if k < size {
            seq![edit_node(s[0], k, e)] + s.subrange(1, s.len() as int)
        } else {
            seq![s[0]] + edit_seq(s.subrange(1, s.len() as int), k - size, e)
        }
    }
}

/// A node after editing the node at position `k` of its flattened form.
pub open spec fn edit_node(n: SpecTree, k: int, e: SpecEdit) -> SpecTree
    decreases n, 2nat,
{
    if k == 0 {
        edited(n, e)
    } else if n.expanded {
        SpecTree { children: edit_seq(n.children, k - 1, e), ..n }
    } else {
        n
    }
}

proof fn lemma_flat_seq_push(s: Seq<SpecTree>, i: int)
    requires
        0 <= i < s.len(),
    ensures
        flat_seq(s.take(i + 1)) == flat_seq(s.take(i)) + flat_node(s[i]),
    decreases i,
{
    if i == 0 {
        assert(s.take(1).subrange(1, 1) =~= Seq::<SpecTree>::empty());
        assert(flat_seq(Seq::<SpecTree>::empty()) =~= Seq::<SpecTree>::empty());
        assert(s.take(1)[0] == s[0]);
        assert(flat_seq(s.take(1)) =~= flat_node(s[0]));
        assert(flat_seq(s.take(0)) =~= Seq::<SpecTree>::empty());
    } else {
        let t = s.subrange(1, s.len() as int);
        lemma_flat_seq_push(t, i - 1);
        assert(s.take(i + 1).subrange(1, i + 1) =~= t.take(i));
        assert(s.take(i).subrange(1, i) =~= t.take(i - 1));
        assert(s.take(i + 1)[0] == s[0]);
        assert(s.take(i)[0] == s[0]);
        assert(t[i - 1] == s[i]);
        assert(flat_seq(s.take(i + 1)) =~= flat_node(s[0]) + flat_seq(t.take(i)));
        assert(flat_seq(s.take(i)) =~= flat_node(s[0]) + flat_seq(t.take(i - 1)));
    }
}

fn row_from(n: &TreeNode) -> (r: FlatRow)
    ensures
        r@ == row_of(n@),
{
    FlatRow {
        indent: n.indent,
        id: n.id.clone(),
        kind: n.kind.clone(),
        has_children: n.has_children,
        in_trash: n.in_trash,
        expanded: n.expanded,
    }
}

/// Appends the rows of the visible nodes of a forest.
fn flatten_into(nodes: &Vec<TreeNode>, out: &mut Vec<FlatRow>)
    ensures
        rows_view(final(out)@) == rows_view(old(out)@) + flat_rows(trees_view(nodes@)),
    decreases nodes, 0nat,
{
    let ghost tv = trees_view(nodes@);
    proof {
        lemma_trees_view(nodes@);
    }
    let mut i: usize = 0;
    while i < nodes.len()
        invariant
            i <= nodes.len(),
            tv == trees_view(nodes@),
            tv.len() == nodes.len(),
            forall|q: int| 0 <= q < nodes.len() ==> #[trigger] tv[q] == nodes@[q]@,
            rows_view(out@) == rows_view(old(out)@) + flat_rows(tv.take(i as int)),
        decreases nodes.len() - i,
    {
        let ghost before = out@;
        let node = &nodes[i];
        proof {
            assert(decreases_to!(*nodes => nodes@[i as int]));
            lemma_flat_seq_push(tv, i as int);
        }
        out.push(row_from(node));
        assert(rows_view(out@) =~= rows_view(before) + seq![row_of(tv[i as int])]);
        if node.expanded {
            proof {
                assert(decreases_to!(nodes@[i as int] => nodes@[i as int].children));
            }
            flatten_into(&node.children, out);
        }
        assert(flat_rows(tv.take(i + 1)) =~= flat_rows(tv.take(i as int)) + flat_node(tv[i as int]).map_values(
            |n: SpecTree| row_of(n),
        ));
        assert(rows_view(out@) =~= rows_view(old(out)@) + flat_rows(tv.take(i + 1)));
        i = i + 1;
    }
    assert(tv.take(nodes.len() as int) =~= tv);
}

/// The rows of the visible nodes of a forest, in display order.
pub fn flatten(nodes: &Vec<TreeNode>) -> (r: Vec<FlatRow>)
    ensures
        rows_view(r@) == flat_rows(trees_view(nodes@)),
{
    let mut out: Vec<FlatRow> = Vec::new();
    flatten_into(nodes, &mut out);
    assert(rows_view(out@) =~= flat_rows(trees_view(nodes@)));
    out
}

/// Visible prefixes grow with the prefix.
proof fn lemma_flat_take_mono(s: Seq<SpecTree>, i: int, j: int)
    requires
        0 <= i <= j <= s.len(),
    ensures
        flat_seq(s.take(i)).len() <= flat_seq(s.take(j)).len(),
    decreases j - i,
{
    if i < j {
        lemma_flat_seq_push(s, j - 1);
        lemma_flat_take_mono(s, i, j - 1);
    }
}

/// Skipping a node that lies before the edited position.
proof fn lemma_edit_seq_step(s: Seq<SpecTree>, i: int, k: int, e: SpecEdit)
    requires
        0 <= i < s.len(),
        k >= flat_node(s[i]).len(),
    ensures
        edit_seq(s.skip(i), k, e) == seq![s[i]] + edit_seq(s.skip(i + 1), k - flat_node(s[i]).len(), e),
{
    assert(s.skip(i)[0] == s[i]);
    assert(s.skip(i).subrange(1, s.skip(i).len() as int) =~= s.skip(i + 1));
}

/// Editing at the position of a node.
proof fn lemma_edit_seq_here(s: Seq<SpecTree>, i: int, k: int, e: SpecEdit)
    requires
        0 <= i < s.len(),
        0 <= k < flat_node(s[i]).len(),
    ensures
        edit_seq(s.skip(i), k, e) == seq![edit_node(s[i], k, e)] + s.skip(i + 1),
{
    assert(s.skip(i)[0] == s[i]);
    assert(s.skip(i).subrange(1, s.skip(i).len() as int) =~= s.skip(i + 1));
}

fn apply_edit_here(node: &mut TreeNode, edit: TreeEdit)
    ensures
        final(node)@ == edited(old(node)@, edit@),
{
    match edit {
        TreeEdit::Collapse => {
            node.expanded = false;
            node.children.clear();
            proof {
                lemma_trees_view(node.children@);
            }
        },
        TreeEdit::ExpandWith(c) => {
            node.children = c;
            node.expanded = true;
        },
        TreeEdit::Expand => {
            node.expanded = true;
        },
    }
    assert(final(node)@ =~= edited(old(node)@, edit@));
}

/// Applies an edit to the node at position `k` of the flattened forest.
/// `Ok` when there is such a node. Otherwise the forest is unchanged and
/// `Err` gives back how far past the last visible node `k` lies, and the
/// edit.
#[verifier::loop_isolation(false)]
fn edit_at(nodes: &mut Vec<TreeNode>, k: usize, edit: TreeEdit) -> (r: Result<(), (usize, TreeEdit)>)
    ensures
        match r {
            Ok(()) => k < flat_seq(trees_view(old(nodes)@)).len() && trees_view(final(nodes)@) == edit_seq(
                trees_view(old(nodes)@),
                k as int,
                edit@,
            ),
            Err((rest, e)) => k >= flat_seq(trees_view(old(nodes)@)).len() && rest == k - flat_seq(
                trees_view(old(nodes)@),
            ).len() && trees_view(final(nodes)@) == trees_view(old(nodes)@) && e@ == edit@,
        },
    decreases *old(nodes),
{
    let ghost tv = trees_view(nodes@);
    let ghost e0 = edit@;
    let ghost k0 = k as int;
    proof {
        lemma_trees_view(nodes@);
    }
    let mut k = k;
    let mut edit = edit;
    let mut i: usize = 0;
    assert(tv.skip(0) =~= tv);
    assert(tv.take(0) =~= Seq::<SpecTree>::empty());
    assert(flat_seq(Seq::<SpecTree>::empty()) =~= Seq::<SpecTree>::empty());
    assert(edit_seq(tv, k0, e0) == tv.take(0) + edit_seq(tv.skip(0), k as int, e0));
    while i < nodes.len()
        invariant
            i <= nodes.len(),
            nodes@.len() == old(nodes)@.len(),
            tv == trees_view(old(nodes)@),
            tv.len() == nodes@.len(),
            forall|q: int| 0 <= q < nodes@.len() ==> #[trigger] nodes@[q]@ == tv[q],
            forall|q: int| i <= q < nodes@.len() ==> #[trigger] nodes@[q] == old(nodes)@[q],
            edit@ == e0,
            k0 == k + flat_seq(tv.take(i as int)).len(),
            edit_seq(tv, k0, e0) == tv.take(i as int) + edit_seq(tv.skip(i as int), k as int, e0),
        decreases nodes.len() - i,
    {
        proof {
            lemma_flat_seq_push(tv, i as int);
            lemma_flat_take_mono(tv, i + 1, tv.len() as int);
            assert(tv.take(tv.len() as int) =~= tv);
        }
        if k == 0 {
            proof {
                lemma_edit_seq_here(tv, i as int, 0, e0);
            }
            let mut node = nodes.remove(i);
            apply_edit_here(&mut node, edit);
            nodes.insert(i, node);
            proof {
                lemma_trees_view(nodes@);
                assert(trees_view(nodes@) =~= tv.take(i as int) + (seq![edit_node(tv[i as int], 0, e0)] + tv.skip(
                    i + 1,
                )));
            }
            return Ok(());
        }
        k = k - 1;
        if nodes[i].expanded {
            let mut node = nodes.remove(i);
            proof {
                assert(node == old(nodes)@[i as int]);
                assert(decreases_to!(*old(nodes) => old(nodes)@));
                assert(decreases_to!(old(nodes)@ => old(nodes)@[i as int]));
                assert(decreases_to!(old(nodes)@[i as int] => old(nodes)@[i as int].children));
            }
            let ghost before = node@;
            match edit_at(&mut node.children, k, edit) {
                Ok(()) => {
                    nodes.insert(i, node);
                    proof {
                        lemma_edit_seq_here(tv, i as int, k + 1, e0);
                        assert(node@ == edit_node(tv[i as int], k + 1, e0));
                        lemma_trees_view(nodes@);
                        assert(trees_view(nodes@) =~= tv.take(i as int) + (seq![edit_node(tv[i as int], k + 1, e0)]
                            + tv.skip(i + 1)));
                    }
                    return Ok(());
                },
                Err((rest, e)) => {
                    nodes.insert(i, node);
                    proof {
                        assert(node@ =~= before);
                        lemma_edit_seq_step(tv, i as int, k + 1, e0);
                        assert(tv.take(i + 1) =~= tv.take(i as int).push(tv[i as int]));
                    }
                    k = rest;
                    edit = e;
                },
            }
        } else {
            proof {
                lemma_edit_seq_step(tv, i as int, k + 1, e0);
                assert(tv.take(i + 1) =~= tv.take(i as int).push(tv[i as int]));
            }
        }
        i = i + 1;
    }
    proof {
        assert(tv.take(tv.len() as int) =~= tv);
        assert(tv.skip(tv.len() as int) =~= Seq::<SpecTree>::empty());
        lemma_trees_view(nodes@);
        assert(trees_view(nodes@) =~= tv);
    }
    Err((k, edit))
}

/// The nodes of a loaded level of the tree: each block collapsed, at the
/// given depth, with no children loaded.
pub open spec fn level_nodes(blocks: Seq<SpecNBlock>, indent: int) -> Seq<SpecTree> {
    Seq::new(
        blocks.len(),
        |i: int|
            SpecTree {
                indent,
                id: blocks[i].id,
                kind: kind_name(blocks[i].kind),
                has_children: blocks[i].has_children,
                in_trash: blocks[i].in_trash,
                expanded: false,
                children: Seq::empty(),
            },
    )
}

/// The tree nodes of loaded blocks, collapsed, at the given depth.
pub fn level_from_blocks(blocks: &Vec<Block>, indent: usize) -> (r: Vec<TreeNode>)
    ensures
        trees_view(r@) == level_nodes(nblocks_view(blocks@), indent as int),
{
    proof {
        lemma_nblocks_view(blocks@);
    }
    let mut out: Vec<TreeNode> = Vec::new();
    let mut i: usize = 0;
    while i < blocks.len()
        invariant
            i <= blocks.len(),
            nblocks_view(blocks@).len() == blocks.len(),
            forall|q: int| 0 <= q < blocks.len() ==> #[trigger] nblocks_view(blocks@)[q] == blocks@[q]@,
            out@.len() == i,
            forall|q: int| 0 <= q < i ==> (#[trigger] out@[q])@ == level_nodes(nblocks_view(blocks@), indent as int)[q],
        decreases blocks.len() - i,
    {
        let b = &blocks[i];
        let node = TreeNode {
            indent,
            id: b.id.clone(),
            kind: b.type_str(),
            has_children: b.has_children,
            in_trash: b.in_trash,
            expanded: false,
            children: Vec::new(),
        };
        proof {
            lemma_trees_view(node.children@);
        }
        assert(node@ =~= level_nodes(nblocks_view(blocks@), indent as int)[i as int]);
        out.push(node);
        i = i + 1;
    }
    proof {
        lemma_trees_view(out@);
    }
    assert(trees_view(out@) =~= level_nodes(nblocks_view(blocks@), indent as int));
    out
}

/// What to do when a row of the tree is chosen.
#[derive(Debug, PartialEq, Eq)]
pub enum TogglePlan {
    /// There is no row there.
    Nothing,
    /// Collapse the expanded node.
    Collapse,
    /// Load the block's children, then expand the node with them one
    /// level deeper.
    FetchChildren { block_id: String, indent: usize },
    /// Expand the node, which has no children to load.
    Expand,
}

/// The outside work a key press asks for.
#[derive(Debug, PartialEq, Eq)]
pub enum Command {
    Nothing,
    Quit,
    LoadUsers,
    LoadPages,
    /// Load the top-level blocks of a page into the tree.
    LoadBlockTree(String),
    LoadDatabases,
    /// Choose the tree row at this position (see [`TuiState::toggle_plan`]).
    ToggleExpand(usize),
    /// Search for the query.
    RunSearch,
    /// Show this search result as JSON in the detail pane.
    ShowResultJson(usize),
}

/// A key press.
#[derive(Debug, Clone, Copy, PartialEq, Eq)]
pub enum Key {
    Char(char),
    Esc,
    Tab,
    BackTab,
    Down,
    Up,
    Backspace,
    Enter,
    Other,
}

/// How the detail pane is coloured.
#[derive(Debug, Clone, Copy, PartialEq, Eq)]
pub enum DetailTone {
    Error,
    Success,
    Normal,
}

/// The position after `sel` in a list of `len` items, wrapping around.
pub open spec fn next_index(sel: int, len: int) -> int {
    (sel + 1) % len
}

/// The position before `sel` in a list of `len` items, wrapping around.
pub open spec fn prev_index(sel: int, len: int) -> int {
    if sel == 0 {
        len - 1
    } else {
        sel - 1
    }
}

/// Moving the selection down and then up, or up and then down, returns to
/// the same item of a non-empty list.
pub proof fn lemma_next_prev_inverse(sel: int, len: int)
    requires
        0 <= sel < len,
    ensures
        prev_index(next_index(sel, len), len) == sel,
        next_index(prev_index(sel, len), len) == sel,
        0 <= next_index(sel, len) < len,
        0 <= prev_index(sel, len) < len,
{
    if sel + 1 < len {
        assert((sel + 1) % len == sel + 1) by (nonlinear_arith)
            requires
                0 <= sel + 1 < len,
        ;
    } else {
        assert((sel + 1) % len == 0) by (nonlinear_arith)
            requires
                sel + 1 == len,
                len > 0,
        ;
    }
    if sel == 0 {
        assert(len % len == 0) by (nonlinear_arith)
            requires
                len > 0,
        ;
    } else {
        assert(sel % len == sel) by (nonlinear_arith)
            requires
                0 <= sel < len,
        ;
    }
}

/// What the terminal interface shows and remembers.
#[derive(Debug)]
pub struct TuiState {
    pub tab: TabsState,
    pub users: Vec<User>,
    pub users_selected: usize,
    pub pages: Vec<Page>,
    pub pages_selected: usize,
    pub block_tree: Vec<TreeNode>,
    pub block_tree_selected: usize,
    pub current_page_id: Option<String>,
    pub databases: Vec<Database>,
    pub db_selected: usize,
    pub search_query: String,
    pub search_results: Vec<JsonValue>,
    pub search_selected: usize,
    pub detail_text: String,
    pub status_message: String,
    pub is_loading: bool,
    pub show_help: bool,
    /// The rows of the tree, valid unless `needs_reflatten`.
    pub flattened_cache: Vec<FlatRow>,
    pub needs_reflatten: bool,
}

/// `true` or `false`.
pub open spec fn bool_text(b: bool) -> Seq<char> {
    if b {
        "true"@
    } else {
        "false"@
    }
}

fn push_bool(out: &mut Vec<char>, b: bool)
    ensures
        final(out)@ == old(out)@ + bool_text(b),
{
    if b {
        extend_str(out, "true");
    } else {
        extend_str(out, "false");
    }
}

/// The `Debug` text of an optional string.
pub uninterp spec fn debug_opt_text(o: Option<Seq<char>>) -> Seq<char>;

/// The text of a user kind: `Person { email: <email> }` for a person,
/// `Bot { workspace_name: <workspace> }` for a bot, each optional text as
/// `Debug` shows it.
pub open spec fn user_type_text(t: SpecUserType) -> Seq<char> {
    match t {
        SpecUserType::Person { email } => "Person { email: "@ + debug_opt_text(email) + " }"@,
        SpecUserType::Bot { workspace_name, .. } => "Bot { workspace_name: "@ + debug_opt_text(workspace_name) + " }"@,
    }
}

/// Formats an optional string with `Debug` (`format!("{:?}")`); the contract
/// names the text.
#[verifier::external_body]
fn opt_debug(o: &Option<String>) -> (r: String)
    ensures
        r@ == debug_opt_text(opt_view(*o)),
{
    format!("{:?}", o)
}

/// The text of a user kind.
fn user_type_text_of(t: &UserType) -> (r: String)
    ensures
        r@ == user_type_text(user_type_view(*t)),
{
    let mut out: Vec<char> = Vec::new();
    match t {
        UserType::Person { person } => {
            extend_str(&mut out, "Person { email: ");
            let e = opt_debug(&person.email);
            extend_str(&mut out, e.as_str());
        },
        UserType::Bot { bot } => {
            extend_str(&mut out, "Bot { workspace_name: ");
            let w = opt_debug(&bot.workspace_name);
            extend_str(&mut out, w.as_str());
        },
    }
    extend_str(&mut out, " }");
    assert(out@ =~= user_type_text(user_type_view(*t)));
    string_of(&out)
}

/// The detail text of a user.
pub open spec fn user_detail(u: SpecUser) -> Seq<char> {
    "Name: "@ + (match u.name {
        Some(n) => n,
        None => "N/A"@,
    }) + "\nID: "@ + u.id + "\nType: "@ + user_type_text(u.user_type) + "\nAvatar: "@ + debug_opt_text(u.avatar_url)
}

/// The detail text of a page.
pub open spec fn page_detail(id: Seq<char>, url: Seq<char>, in_trash: bool, title: Seq<char>) -> Seq<char> {
    "ID: "@ + id + "\nURL: "@ + url + "\nTrashed: "@ + bool_text(in_trash) + "\nTitle: "@ + title
}

/// The detail text of a row of the tree.
pub open spec fn block_detail(r: SpecFlatRow) -> Seq<char> {
    "ID: "@ + r.id + "\nType: "@ + r.kind + "\nHas children: "@ + bool_text(r.has_children) + "\nTrashed: "@
        + bool_text(r.in_trash)
}

/// The detail text of a database.
pub open spec fn database_detail(id: Seq<char>, title: Seq<char>) -> Seq<char> {
    "Database ID: "@ + id + "\nTitle: "@ + title
}

impl TuiState {
    /// The rows of the block tree.
    pub open spec fn flat(&self) -> Seq<SpecFlatRow> {
        flat_rows(trees_view(self.block_tree@))
    }

    /// The cached rows are the tree's whenever they are marked fresh.
    pub open spec fn wf(&self) -> bool {
        !self.needs_reflatten ==> rows_view(self.flattened_cache@) == self.flat()
    }

    /// The length of the list the current tab shows.
    pub open spec fn list_len_spec(&self) -> nat {
        match self.tab {
            TabsState::Users => self.users@.len(),
            TabsState::Pages => self.pages@.len(),
            TabsState::BlocksTree => self.flat().len(),
            TabsState::Databases => self.databases@.len(),
            TabsState::Search => self.search_results@.len(),
        }
    }

    /// The selected position of the current tab.
    pub open spec fn selected(&self) -> usize {
        match self.tab {
            TabsState::Users => self.users_selected,
            TabsState::Pages => self.pages_selected,
            TabsState::BlocksTree => self.block_tree_selected,
            TabsState::Databases => self.db_selected,
            TabsState::Search => self.search_selected,
        }
    }

    /// The state with the current tab's selection set to `idx`.
    pub open spec fn with_selected(self, idx: usize) -> TuiState {
        match self.tab {
            TabsState::Users => TuiState { users_selected: idx, ..self },
            TabsState::Pages => TuiState { pages_selected: idx, ..self },
            TabsState::BlocksTree => TuiState { block_tree_selected: idx, ..self },
            TabsState::Databases => TuiState { db_selected: idx, ..self },
            TabsState::Search => TuiState { search_selected: idx, ..self },
        }
    }

    /// The detail text the current tab's selection shows, when the state
    /// computes it itself; search results are shown as JSON by the caller.
    pub open spec fn detail_for_selection(&self) -> Option<Seq<char>> {
        match self.tab {
            TabsState::Users => if self.users_selected < self.users@.len() {
                Some(user_detail(self.users@[self.users_selected as int]@))
            } else {
                None
            },
            TabsState::Pages => if self.pages_selected < self.pages@.len() {
                let p = self.pages@[self.pages_selected as int];
                Some(page_detail(p.id@, p.url@, p.in_trash, properties_title(p.properties@)))
            } else {
                None
            },
            TabsState::BlocksTree => if self.block_tree_selected < self.flat().len() {
                Some(block_detail(self.flat()[self.block_tree_selected as int]))
            } else {
                None
            },
            TabsState::Databases => if self.db_selected < self.databases@.len() {
                let d = self.databases@[self.db_selected as int];
                Some(database_detail(d.id@, plain_of_spans(rich_view(d.title@))))
            } else {
                None
            },
            TabsState::Search => None,
        }
    }

    /// The search result whose JSON the detail pane should show, if any.
    pub open spec fn json_detail(&self) -> Option<usize> {
        if self.tab == TabsState::Search && self.search_selected < self.search_results@.len() {
            Some(self.search_selected)
        } else {
            None
        }
    }

    /// Whether `after` is `before` with only the detail text and the row
    /// cache possibly changed, the rows staying the tree's.
    pub open spec fn same_but_detail(before: TuiState, after: TuiState) -> bool {
        &&& after.wf()
        &&& after == (TuiState {
            detail_text: after.detail_text,
            flattened_cache: after.flattened_cache,
            needs_reflatten: after.needs_reflatten,
            ..before
        })
    }

    /// Whether `after` is `moved` with its selection shown: the detail text
    /// set for it, or its search result handed back as `json`.
    pub open spec fn shows_selection(moved: TuiState, after: TuiState, json: Option<usize>) -> bool {
        &&& Self::same_but_detail(moved, after)
        &&& json == moved.json_detail()
        &&& after.detail_text@ == (match moved.detail_for_selection() {
            Some(t) => t,
            None => moved.detail_text@,
        })
    }

    /// A fresh state: the users tab, nothing loaded, status `Ready`.
    pub fn new() -> (s: Self)
        ensures
            s.wf(),
            s.tab == TabsState::Users,
            s.users@.len() == 0 && s.pages@.len() == 0 && s.block_tree@.len() == 0,
            s.databases@.len() == 0 && s.search_results@.len() == 0,
            s.users_selected == 0 && s.pages_selected == 0 && s.block_tree_selected == 0,
            s.db_selected == 0 && s.search_selected == 0,
            s.current_page_id is None,
            s.search_query@.len() == 0,
            s.detail_text@.len() == 0,
            s.status_message@ == "Ready"@,
            !s.is_loading && !s.show_help,
            s.flattened_cache@.len() == 0,
            s.needs_reflatten,
    {
        TuiState {
            tab: TabsState::Users,
            users: Vec::new(),
            users_selected: 0,
            pages: Vec::new(),
            pages_selected: 0,
            block_tree: Vec::new(),
            block_tree_selected: 0,
            current_page_id: None,
            databases: Vec::new(),
            db_selected: 0,
            search_query: String::new(),
            search_results: Vec::new(),
            search_selected: 0,
            detail_text: String::new(),
            status_message: String::from_str("Ready"),
            is_loading: false,
            show_help: false,
            flattened_cache: Vec::new(),
            needs_reflatten: true,
        }
    }

    /// Sets the status line.
    pub fn set_status(&mut self, msg: &str)
        ensures
            final(self).status_message@ == msg@,
            *final(self) == (TuiState { status_message: final(self).status_message, ..*old(self) }),
    {
        self.status_message = String::from_str(msg);
    }

    /// Makes the row cache the tree's rows.
    pub fn refresh_rows(&mut self)
        requires
            old(self).wf(),
        ensures
            !final(self).needs_reflatten,
            rows_view(final(self).flattened_cache@) == old(self).flat(),
            final(self).wf(),
            *final(self) == (TuiState {
                flattened_cache: final(self).flattened_cache,
                needs_reflatten: false,
                ..*old(self)
            }),
    {
        if self.needs_reflatten {
            self.flattened_cache = flatten(&self.block_tree);
            self.needs_reflatten = false;
        }
    }

    /// The length of the list the current tab shows.
    pub fn list_len(&mut self) -> (n: usize)
        requires
            old(self).wf(),
        ensures
            n == old(self).list_len_spec(),
            Self::same_but_detail(*old(self), *final(self)),
            final(self).detail_text == old(self).detail_text,
    {
        match self.tab {
            TabsState::Users => self.users.len(),
            TabsState::Pages => self.pages.len(),
            TabsState::BlocksTree => {
                self.refresh_rows();
                self.flattened_cache.len()
            },
            TabsState::Databases => self.databases.len(),
            TabsState::Search => self.search_results.len(),
        }
    }

    /// The selected position of the current tab.
    pub fn selected_index(&self) -> (i: usize)
        ensures
            i == self.selected(),
    {
        match self.tab {
            TabsState::Users => self.users_selected,
            TabsState::Pages => self.pages_selected,
            TabsState::BlocksTree => self.block_tree_selected,
            TabsState::Databases => self.db_selected,
            TabsState::Search => self.search_selected,
        }
    }

    /// Selects position `idx` of the current tab.
    pub fn set_selected_index(&mut self, idx: usize)
        ensures
            *final(self) == old(self).with_selected(idx),
    {
        match self.tab {
            TabsState::Users => self.users_selected = idx,
            TabsState::Pages => self.pages_selected = idx,
            TabsState::BlocksTree => self.block_tree_selected = idx,
            TabsState::Databases => self.db_selected = idx,
            TabsState::Search => self.search_selected = idx,
        }
    }

    fn show_user_detail(&mut self)
        requires
            old(self).users_selected < old(self).users@.len(),
        ensures
            final(self).detail_text@ == user_detail(old(self).users@[old(self).users_selected as int]@),
            *final(self) == (TuiState { detail_text: final(self).detail_text, ..*old(self) }),
    {
        let u = &self.users[self.users_selected];
        let mut out: Vec<char> = Vec::new();
        extend_str(&mut out, "Name: ");
        match &u.name {
            Some(n) => extend_str(&mut out, n.as_str()),
            None => extend_str(&mut out, "N/A"),
        }
        extend_str(&mut out, "\nID: ");
        extend_str(&mut out, u.id.as_str());
        extend_str(&mut out, "\nType: ");
        let t = user_type_text_of(&u.user_type);
        extend_str(&mut out, t.as_str());
        extend_str(&mut out, "\nAvatar: ");
        let a = opt_debug(&u.avatar_url);
        extend_str(&mut out, a.as_str());
        assert(out@ =~= user_detail(u@));
        self.detail_text = string_of(&out);
    }

    fn show_page_detail(&mut self)
        requires
            old(self).pages_selected < old(self).pages@.len(),
        ensures
            final(self).detail_text@ == ({
                let p = old(self).pages@[old(self).pages_selected as int];
                page_detail(p.id@, p.url@, p.in_trash, properties_title(p.properties@))
            }),
            *final(self) == (TuiState { detail_text: final(self).detail_text, ..*old(self) }),
    {
        let p = &self.pages[self.pages_selected];
        let mut out: Vec<char> = Vec::new();
        extend_str(&mut out, "ID: ");
        extend_str(&mut out, p.id.as_str());
        extend_str(&mut out, "\nURL: ");
        extend_str(&mut out, p.url.as_str());
        extend_str(&mut out, "\nTrashed: ");
        push_bool(&mut out, p.in_trash);
        extend_str(&mut out, "\nTitle: ");
        let t = p.title_from_properties();
        extend_str(&mut out, t.as_str());
        assert(out@ =~= page_detail(p.id@, p.url@, p.in_trash, properties_title(p.properties@)));
        self.detail_text = string_of(&out);
    }

    fn show_block_detail(&mut self)
        requires
            old(self).wf(),
        ensures
            Self::same_but_detail(*old(self), *final(self)),
            final(self).detail_text@ == (if old(self).block_tree_selected < old(self).flat().len() {
                block_detail(old(self).flat()[old(self).block_tree_selected as int])
            } else {
                old(self).detail_text@
            }),
    {
        self.refresh_rows();
        let idx = self.block_tree_selected;
        if idx < self.flattened_cache.len() {
            let r = &self.flattened_cache[idx];
            let mut out: Vec<char> = Vec::new();
            extend_str(&mut out, "ID: ");
            extend_str(&mut out, r.id.as_str());
            extend_str(&mut out, "\nType: ");
            extend_str(&mut out, r.kind.as_str());
            extend_str(&mut out, "\nHas children: ");
            push_bool(&mut out, r.has_children);
            extend_str(&mut out, "\nTrashed: ");
            push_bool(&mut out, r.in_trash);
            assert(rows_view(self.flattened_cache@)[idx as int] == r@);
            assert(out@ =~= block_detail(r@));
            self.detail_text = string_of(&out);
        }
    }

    /// Shows the current selection in the detail pane. For the search tab
    /// the detail is the selected result as JSON, which the caller renders:
    /// its position is returned.
    pub fn update_detail(&mut self) -> (json: Option<usize>)
        requires
            old(self).wf(),
        ensures
            json == old(self).json_detail(),
            Self::same_but_detail(*old(self), *final(self)),
            final(self).detail_text@ == (match old(self).detail_for_selection() {
                Some(t) => t,
                None => old(self).detail_text@,
            }),
    {
        match self.tab {
            TabsState::Users => {
                if self.users_selected < self.users.len() {
                    self.show_user_detail();
                }
                None
            },
            TabsState::Pages => {
                if self.pages_selected < self.pages.len() {
                    self.show_page_detail();
                }
                None
            },
            TabsState::BlocksTree => {
                self.show_block_detail();
                None
            },
            TabsState::Databases => {
                if self.db_selected < self.databases.len() {
                    let d = &self.databases[self.db_selected];
                    let mut out: Vec<char> = Vec::new();
                    extend_str(&mut out, "Database ID: ");
                    extend_str(&mut out, d.id.as_str());
                    extend_str(&mut out, "\nTitle: ");
                    let t = d.title_text();
                    extend_str(&mut out, t.as_str());
                    assert(out@ =~= database_detail(d.id@, plain_of_spans(rich_view(d.title@))));
                    self.detail_text = string_of(&out);
                }
                None
            },
            TabsState::Search => {
                if self.search_selected < self.search_results.len() {
                    Some(self.search_selected)
                } else {
                    None
                }
            },
        }
    }

    /// Moves the selection to the next item, wrapping around, and shows it;
    /// nothing happens on an empty list. Returns what
    /// [`TuiState::update_detail`] returns.
    pub fn next_item(&mut self) -> (json: Option<usize>)
        requires
            old(self).wf(),
            old(self).list_len_spec() > 0 ==> old(self).selected() < usize::MAX,
        ensures
            final(self).wf(),
            old(self).list_len_spec() == 0 ==> Self::same_but_detail(*old(self), *final(self))
                && final(self).detail_text == old(self).detail_text && json is None,
            old(self).list_len_spec() > 0 ==> Self::shows_selection(
                old(self).with_selected(next_index(old(self).selected() as int, old(self).list_len_spec() as int) as usize),
                *final(self),
                json,
            ),
    {
        let len = self.list_len();
        if len > 0 {
            let i = self.selected_index();
            self.set_selected_index((i + 1) % len);
            self.update_detail()
        } else {
            None
        }
    }

    /// Moves the selection to the previous item, wrapping around, and shows
    /// it; nothing happens on an empty list. Returns what
    /// [`TuiState::update_detail`] returns.
    pub fn prev_item(&mut self) -> (json: Option<usize>)
        requires
            old(self).wf(),
        ensures
            final(self).wf(),
            old(self).list_len_spec() == 0 ==> Self::same_but_detail(*old(self), *final(self))
                && final(self).detail_text == old(self).detail_text && json is None,
            old(self).list_len_spec() > 0 ==> Self::shows_selection(
                old(self).with_selected(prev_index(old(self).selected() as int, old(self).list_len_spec() as int) as usize),
                *final(self),
                json,
            ),
    {
        let len = self.list_len();
        if len > 0 {
            let i = self.selected_index();
            self.set_selected_index(if i == 0 { len - 1 } else { i - 1 });
            self.update_detail()
        } else {
            None
        }
    }
}

/// What is being loaded.
#[derive(Debug, Clone, Copy, PartialEq, Eq)]
pub enum LoadKind {
    Users,
    Pages,
    Blocks,
    Databases,
    Search,
}

/// The status shown while loading.
pub open spec fn loading_message(k: LoadKind) -> Seq<char> {
    match k {
        LoadKind::Users => "Loading users..."@,
        LoadKind::Pages => "Loading pages..."@,
        LoadKind::Blocks => "Loading blocks..."@,
        LoadKind::Databases => "Loading databases..."@,
        LoadKind::Search => "Searching..."@,
    }
}

/// The status after a failed load.
pub open spec fn error_status(message: Seq<char>) -> Seq<char> {
    "Error: "@ + message
}

/// The detail text after a search.
pub open spec fn search_summary(count: nat) -> Seq<char> {
    if count > 0 {
        "Found "@ + decimal(count) + " results"@
    } else {
        "No results"@
    }
}

impl TuiState {
    /// Marks a load as running and says so in the status line.
    pub fn begin_load(&mut self, kind: LoadKind)
        ensures
            final(self).is_loading,
            final(self).status_message@ == loading_message(kind),
            *final(self) == (TuiState { is_loading: true, status_message: final(self).status_message, ..*old(self) }),
    {
        self.is_loading = true;
        let msg = match kind {
            LoadKind::Users => "Loading users...",
            LoadKind::Pages => "Loading pages...",
            LoadKind::Blocks => "Loading blocks...",
            LoadKind::Databases => "Loading databases...",
            LoadKind::Search => "Searching...",
        };
        self.set_status(msg);
    }

    fn set_error(&mut self, message: &String)
        ensures
            final(self).status_message@ == error_status(message@),
            *final(self) == (TuiState { status_message: final(self).status_message, ..*old(self) }),
    {
        let mut out: Vec<char> = Vec::new();
        extend_str(&mut out, "Error: ");
        extend_str(&mut out, message.as_str());
        self.status_message = string_of(&out);
    }

    /// Takes the outcome of loading users: on success the list is replaced,
    /// the first user selected and shown; an error is shown in the status
    /// line.
    pub fn users_loaded(&mut self, res: Result<Vec<User>, String>)
        ensures
            !final(self).is_loading,
            match res {
                Ok(users) => {
                    &&& final(self).users@ == users@
                    &&& final(self).status_message@ == "Users loaded"@
                    &&& users@.len() > 0 ==> final(self).users_selected == 0 && final(self).detail_text@ == user_detail(
                        users@[0]@,
                    )
                    &&& *final(self) == (TuiState {
                        is_loading: false,
                        users: final(self).users,
                        users_selected: final(self).users_selected,
                        detail_text: final(self).detail_text,
                        status_message: final(self).status_message,
                        ..*old(self)
                    })
                    &&& users@.len() == 0 ==> final(self).users_selected == old(self).users_selected
                        && final(self).detail_text == old(self).detail_text
                },
                Err(e) => {
                    &&& final(self).status_message@ == error_status(e@)
                    &&& *final(self) == (TuiState {
                        is_loading: false,
                        status_message: final(self).status_message,
                        ..*old(self)
                    })
                },
            },
    {
        self.is_loading = false;
        match res {
            Ok(users) => {
                self.users = users;
                if self.users.len() > 0 {
                    self.users_selected = 0;
                    self.show_user_detail();
                }
                self.set_status("Users loaded");
            },
            Err(e) => self.set_error(&e),
        }
    }

    /// Takes the outcome of loading pages: on success the list is replaced,
    /// the first page selected and shown; an error is shown in the status
    /// line.
    pub fn pages_loaded(&mut self, res: Result<Vec<Page>, String>)
        ensures
            !final(self).is_loading,
            match res {
                Ok(pages) => {
                    &&& final(self).pages@ == pages@
                    &&& final(self).status_message@ == "Pages loaded"@
                    &&& pages@.len() > 0 ==> final(self).pages_selected == 0 && final(self).detail_text@ == page_detail(
                        pages@[0].id@,
                        pages@[0].url@,
                        pages@[0].in_trash,
                        properties_title(pages@[0].properties@),
                    )
                    &&& pages@.len() == 0 ==> final(self).pages_selected == old(self).pages_selected
                        && final(self).detail_text == old(self).detail_text
                    &&& *final(self) == (TuiState {
                        is_loading: false,
                        pages: final(self).pages,
                        pages_selected: final(self).pages_selected,
                        detail_text: final(self).detail_text,
                        status_message: final(self).status_message,
                        ..*old(self)
                    })
                },
                Err(e) => {
                    &&& final(self).status_message@ == error_status(e@)
                    &&& *final(self) == (TuiState {
                        is_loading: false,
                        status_message: final(self).status_message,
                        ..*old(self)
                    })
                },
            },
    {
        self.is_loading = false;
        match res {
            Ok(pages) => {
                self.pages = pages;
                if self.pages.len() > 0 {
                    self.pages_selected = 0;
                    self.show_page_detail();
                }
                self.set_status("Pages loaded");
            },
            Err(e) => self.set_error(&e),
        }
    }

    /// Takes the outcome of loading the top-level blocks of a page: on
    /// success they become the tree, collapsed; the first row is selected
    /// and shown and the page remembered. An error is shown in the status
    /// line.
    pub fn block_tree_loaded(&mut self, page_id: &str, res: Result<Vec<Block>, String>)
        requires
            old(self).wf(),
        ensures
            final(self).wf(),
            !final(self).is_loading,
            match res {
                Ok(blocks) => {
                    &&& trees_view(final(self).block_tree@) == level_nodes(nblocks_view(blocks@), 0)
                    &&& final(self).block_tree_selected == 0
                    &&& opt_view(final(self).current_page_id) == Some(page_id@)
                    &&& final(self).status_message@ == "Blocks loaded"@
                    &&& final(self).detail_text@ == (if blocks@.len() > 0 {
                        block_detail(final(self).flat()[0])
                    } else {
                        old(self).detail_text@
                    })
                    &&& *final(self) == (TuiState {
                        is_loading: false,
                        block_tree: final(self).block_tree,
                        block_tree_selected: 0,
                        current_page_id: final(self).current_page_id,
                        detail_text: final(self).detail_text,
                        status_message: final(self).status_message,
                        flattened_cache: final(self).flattened_cache,
                        needs_reflatten: final(self).needs_reflatten,
                        ..*old(self)
                    })
                },
                Err(e) => {
                    &&& final(self).status_message@ == error_status(e@)
                    &&& *final(self) == (TuiState {
                        is_loading: false,
                        status_message: final(self).status_message,
                        ..*old(self)
                    })
                },
            },
    {
        self.is_loading = false;
        match res {
            Ok(blocks) => {
                self.block_tree = level_from_blocks(&blocks, 0);
                self.block_tree_selected = 0;
                self.needs_reflatten = true;
                proof {
                    lemma_nblocks_view(blocks@);
                    lemma_level_rows(nblocks_view(blocks@), 0);
                }
                self.show_block_detail();
                self.current_page_id = Some(String::from_str(page_id));
                self.set_status("Blocks loaded");
            },
            Err(e) => self.set_error(&e),
        }
    }

    /// Takes the outcome of loading databases: on success the list is
    /// replaced and the first database selected and named in the detail
    /// pane; an error is shown in the status line.
    pub fn databases_loaded(&mut self, res: Result<Vec<Database>, String>)
        ensures
            !final(self).is_loading,
            match res {
                Ok(dbs) => {
                    &&& final(self).databases@ == dbs@
                    &&& final(self).status_message@ == "Databases loaded"@
                    &&& dbs@.len() > 0 ==> final(self).db_selected == 0 && final(self).detail_text@ == "Database ID: "@
                        + dbs@[0].id@
                    &&& dbs@.len() == 0 ==> final(self).db_selected == old(self).db_selected
                        && final(self).detail_text == old(self).detail_text
                    &&& *final(self) == (TuiState {
                        is_loading: false,
                        databases: final(self).databases,
                        db_selected: final(self).db_selected,
                        detail_text: final(self).detail_text,
                        status_message: final(self).status_message,
                        ..*old(self)
                    })
                },
                Err(e) => {
                    &&& final(self).status_message@ == error_status(e@)
                    &&& *final(self) == (TuiState {
                        is_loading: false,
                        status_message: final(self).status_message,
                        ..*old(self)
                    })
                },
            },
    {
        self.is_loading = false;
        match res {
            Ok(dbs) => {
                self.databases = dbs;
                if self.databases.len() > 0 {
                    self.db_selected = 0;
                    let mut out: Vec<char> = Vec::new();
                    extend_str(&mut out, "Database ID: ");
                    extend_str(&mut out, self.databases[0].id.as_str());
                    self.detail_text = string_of(&out);
                }
                self.set_status("Databases loaded");
            },
            Err(e) => self.set_error(&e),
        }
    }

    /// Starts a search: false, and nothing changes, when the query is empty.
    pub fn begin_search(&mut self) -> (started: bool)
        ensures
            started == (old(self).search_query@.len() > 0),
            started ==> final(self).is_loading && final(self).status_message@ == "Searching..."@
                && *final(self) == (TuiState {
                is_loading: true,
                status_message: final(self).status_message,
                ..*old(self)
            }),
            !started ==> *final(self) == *old(self),
    {
        if self.search_query.as_str().is_empty() {
            return false;
        }
        self.begin_load(LoadKind::Search);
        true
    }

    /// Takes the outcome of a search: on success the results are replaced,
    /// the first one selected, and the detail pane says how many were
    /// found; an error is shown in the status line.
    pub fn search_loaded(&mut self, res: Result<Vec<JsonValue>, String>)
        ensures
            !final(self).is_loading,
            match res {
                Ok(results) => {
                    &&& final(self).search_results@ == results@
                    &&& final(self).status_message@ == "Search complete"@
                    &&& final(self).detail_text@ == search_summary(results@.len())
                    &&& final(self).search_selected == (if results@.len() > 0 {
                        0
                    } else {
                        old(self).search_selected
                    })
                    &&& *final(self) == (TuiState {
                        is_loading: false,
                        search_results: final(self).search_results,
                        search_selected: final(self).search_selected,
                        detail_text: final(self).detail_text,
                        status_message: final(self).status_message,
                        ..*old(self)
                    })
                },
                Err(e) => {
                    &&& final(self).status_message@ == error_status(e@)
                    &&& *final(self) == (TuiState {
                        is_loading: false,
                        status_message: final(self).status_message,
                        ..*old(self)
                    })
                },
            },
    {
        self.is_loading = false;
        match res {
            Ok(results) => {
                self.search_results = results;
                let n = self.search_results.len();
                if n > 0 {
                    self.search_selected = 0;
                    let mut out: Vec<char> = Vec::new();
                    extend_str(&mut out, "Found ");
                    push_decimal(&mut out, n);
                    extend_str(&mut out, " results");
                    self.detail_text = string_of(&out);
                } else {
                    self.detail_text = String::from_str("No results");
                }
                self.set_status("Search complete");
            },
            Err(e) => self.set_error(&e),
        }
    }
}

/// The rows of a freshly loaded level are its nodes' rows.
proof fn lemma_level_rows(blocks: Seq<SpecNBlock>, indent: int)
    ensures
        flat_seq(level_nodes(blocks, indent)) == level_nodes(blocks, indent),
    decreases blocks.len(),
{
    let s = level_nodes(blocks, indent);
    if blocks.len() > 0 {
        let rest = blocks.subrange(1, blocks.len() as int);
        lemma_level_rows(rest, indent);
        assert(s.subrange(1, s.len() as int) =~= level_nodes(rest, indent));
        assert(flat_node(s[0]) =~= seq![s[0]]);
        assert(flat_seq(s) =~= s);
    } else {
        assert(flat_seq(s) =~= s);
    }
}

/// What choosing a row of the tree calls for.
pub open spec fn toggle_plan_of(rows: Seq<SpecFlatRow>, index: int) -> SpecTogglePlan {
    if index < 0 || index >= rows.len() {
        SpecTogglePlan::Nothing
    } else if rows[index].expanded {
        SpecTogglePlan::Collapse
    } else if rows[index].has_children {
        SpecTogglePlan::FetchChildren { block_id: rows[index].id, indent: rows[index].indent }
    } else {
        SpecTogglePlan::Expand
    }
}

/// The content of a [`TogglePlan`].
pub enum SpecTogglePlan {
    Nothing,
    Collapse,
    FetchChildren { block_id: Seq<char>, indent: int },
    Expand,
}

impl View for TogglePlan {
    type V = SpecTogglePlan;

    open spec fn view(&self) -> SpecTogglePlan {
        match self {
            TogglePlan::Nothing => SpecTogglePlan::Nothing,
            TogglePlan::Collapse => SpecTogglePlan::Collapse,
            TogglePlan::FetchChildren { block_id, indent } => SpecTogglePlan::FetchChildren {
                block_id: block_id@,
                indent: *indent as int,
            },
            TogglePlan::Expand => SpecTogglePlan::Expand,
        }
    }
}

impl TuiState {
    /// What choosing row `index` of the tree calls for: collapsing an
    /// expanded node, loading the children of a node that has some, or
    /// expanding one that has none.
    pub fn toggle_plan(&mut self, index: usize) -> (p: TogglePlan)
        requires
            old(self).wf(),
        ensures
            p@ == toggle_plan_of(old(self).flat(), index as int),
            Self::same_but_detail(*old(self), *final(self)),
            final(self).detail_text == old(self).detail_text,
    {
        self.refresh_rows();
        if index >= self.flattened_cache.len() {
            return TogglePlan::Nothing;
        }
        let r = &self.flattened_cache[index];
        assert(rows_view(self.flattened_cache@)[index as int] == r@);
        if r.expanded {
            TogglePlan::Collapse
        } else if r.has_children {
            TogglePlan::FetchChildren { block_id: r.id.clone(), indent: r.indent }
        } else {
            TogglePlan::Expand
        }
    }

    /// Edits the node at row `index` of the tree; nothing changes when there
    /// is no such row.
    pub fn apply_edit(&mut self, index: usize, edit: TreeEdit)
        requires
            old(self).wf(),
        ensures
            final(self).wf(),
            trees_view(final(self).block_tree@) == edit_seq(trees_view(old(self).block_tree@), index as int, edit@),
            index < old(self).flat().len() ==> *final(self) == (TuiState {
                block_tree: final(self).block_tree,
                needs_reflatten: true,
                ..*old(self)
            }),
            index >= old(self).flat().len() ==> *final(self) == (TuiState {
                block_tree: final(self).block_tree,
                ..*old(self)
            }),
    {
        let ghost e = edit@;
        match edit_at(&mut self.block_tree, index, edit) {
            Ok(()) => {
                self.needs_reflatten = true;
            },
            Err(_) => {
                proof {
                    lemma_edit_seq_past_end(trees_view(old(self).block_tree@), index as int, e);
                }
            },
        }
    }
}

/// Editing past the last visible node changes nothing.
proof fn lemma_edit_seq_past_end(s: Seq<SpecTree>, k: int, e: SpecEdit)
    requires
        k >= flat_seq(s).len(),
    ensures
        edit_seq(s, k, e) == s,
    decreases s.len(),
{
    if s.len() > 0 {
        let rest = s.subrange(1, s.len() as int);
        assert(flat_seq(s) == flat_node(s[0]) + flat_seq(rest));
        lemma_edit_seq_past_end(rest, k - flat_node(s[0]).len(), e);
        assert(seq![s[0]] + rest =~= s);
    }
}

/// The content of a [`Command`].
pub enum SpecCommand {
    Nothing,
    Quit,
    LoadUsers,
    LoadPages,
    LoadBlockTree(Seq<char>),
    LoadDatabases,
    ToggleExpand(usize),
    RunSearch,
    ShowResultJson(usize),
}

impl View for Command {
    type V = SpecCommand;

    open spec fn view(&self) -> SpecCommand {
        match self {
            Command::Nothing => SpecCommand::Nothing,
            Command::Quit => SpecCommand::Quit,
            Command::LoadUsers => SpecCommand::LoadUsers,
            Command::LoadPages => SpecCommand::LoadPages,
            Command::LoadBlockTree(id) => SpecCommand::LoadBlockTree(id@),
            Command::LoadDatabases => SpecCommand::LoadDatabases,
            Command::ToggleExpand(i) => SpecCommand::ToggleExpand(*i),
            Command::RunSearch => SpecCommand::RunSearch,
            Command::ShowResultJson(i) => SpecCommand::ShowResultJson(*i),
        }
    }
}

/// The load a tab calls for when it is switched to: its list, or for the
/// blocks tab the tree of the current page, if there is one.
pub open spec fn tab_load(tab: TabsState, page: Option<Seq<char>>) -> SpecCommand {
    match tab {
        TabsState::Users => SpecCommand::LoadUsers,
        TabsState::Pages => SpecCommand::LoadPages,
        TabsState::BlocksTree => match page {
            Some(id) => SpecCommand::LoadBlockTree(id),
            None => SpecCommand::Nothing,
        },
        TabsState::Databases => SpecCommand::LoadDatabases,
        TabsState::Search => SpecCommand::Nothing,
    }
}

/// The search result a command hands back for display as JSON.
pub open spec fn json_of(c: SpecCommand) -> Option<usize> {
    match c {
        SpecCommand::ShowResultJson(i) => Some(i),
        _ => None,
    }
}

/// Whether a key moves the selection down.
pub open spec fn is_down(k: Key) -> bool {
    k == Key::Down || k == Key::Char('j')
}

/// Whether a key moves the selection up.
pub open spec fn is_up(k: Key) -> bool {
    k == Key::Up || k == Key::Char('k')
}

/// Whether a key quits or closes the help popup.
pub open spec fn is_quit(k: Key) -> bool {
    k == Key::Esc || k == Key::Char('q')
}

fn pop_last_char(s: &mut String)
    ensures
        final(s)@ == (if old(s)@.len() > 0 {
            old(s)@.drop_last()
        } else {
            old(s)@
        }),
{
    let c = crate::text::chars_of(s.as_str());
    if c.len() > 0 {
        let mut v: Vec<char> = Vec::new();
        let mut i: usize = 0;
        while i + 1 < c.len()
            invariant
                c.len() > 0,
                i + 1 <= c.len(),
                v@ == c@.take(i as int),
            decreases c.len() - i,
        {
            v.push(c[i]);
            assert(c@.take(i + 1) =~= c@.take(i as int).push(c@[i as int]));
            i = i + 1;
        }
        assert(v@ =~= c@.drop_last());
        *s = string_of(&v);
    }
}

fn tab_load_command(tab: TabsState, page: &Option<String>) -> (c: Command)
    ensures
        c@ == tab_load(tab, opt_view(*page)),
{
    match tab {
        TabsState::Users => Command::LoadUsers,
        TabsState::Pages => Command::LoadPages,
        TabsState::BlocksTree => match page {
            Some(id) => Command::LoadBlockTree(id.clone()),
            None => Command::Nothing,
        },
        TabsState::Databases => Command::LoadDatabases,
        TabsState::Search => Command::Nothing,
    }
}

impl TuiState {
    /// Takes a key press: changes what it changes here and returns the
    /// outside work it calls for.
    ///
    /// `q`/Esc closes the help popup, or quits; `?` toggles the popup; Tab
    /// and BackTab switch tabs and load the new tab's list; Down/`j` and
    /// Up/`k` move the selection; Backspace goes back from the blocks tab
    /// to the pages tab, or deletes the last character of the query; Enter
    /// opens the selected page's blocks, toggles the selected tree node,
    /// runs the search, or reloads the list; other characters are typed
    /// into the query on the search tab.
    #[verifier::rlimit(40)]
    pub fn handle_key(&mut self, key: Key) -> (c: Command)
        requires
            old(self).wf(),
            is_down(key) && old(self).list_len_spec() > 0 ==> old(self).selected() < usize::MAX,
        ensures
            final(self).wf(),
            is_quit(key) ==> (if old(self).show_help {
                c@ == SpecCommand::Nothing && *final(self) == (TuiState { show_help: false, ..*old(self) })
            } else {
                c@ == SpecCommand::Quit && *final(self) == *old(self)
            }),
            key == Key::Char('?') ==> c@ == SpecCommand::Nothing && *final(self) == (TuiState {
                show_help: !old(self).show_help,
                ..*old(self)
            }),
            key == Key::Tab ==> final(self).tab == TabsState::at(((old(self).tab.position() + 1) % 5) as int)
                && *final(self) == (TuiState { tab: final(self).tab, ..*old(self) }) && c@ == tab_load(
                final(self).tab,
                opt_view(old(self).current_page_id),
            ),
            key == Key::BackTab ==> final(self).tab == TabsState::at(((old(self).tab.position() + 4) % 5) as int)
                && *final(self) == (TuiState { tab: final(self).tab, ..*old(self) }) && c@ == tab_load(
                final(self).tab,
                opt_view(old(self).current_page_id),
            ),
            is_down(key) ==> (c@ is Nothing || c@ is ShowResultJson) && (if old(self).list_len_spec() > 0 {
                Self::shows_selection(
                    old(self).with_selected(next_index(old(self).selected() as int, old(self).list_len_spec() as int) as usize),
                    *final(self),
                    json_of(c@),
                )
            } else {
                Self::same_but_detail(*old(self), *final(self)) && final(self).detail_text == old(self).detail_text
                    && c@ is Nothing
            }),
            is_up(key) ==> (c@ is Nothing || c@ is ShowResultJson) && (if old(self).list_len_spec() > 0 {
                Self::shows_selection(
                    old(self).with_selected(prev_index(old(self).selected() as int, old(self).list_len_spec() as int) as usize),
                    *final(self),
                    json_of(c@),
                )
            } else {
                Self::same_but_detail(*old(self), *final(self)) && final(self).detail_text == old(self).detail_text
                    && c@ is Nothing
            }),
            key == Key::Backspace ==> c@ == SpecCommand::Nothing && (if old(self).tab == TabsState::BlocksTree {
                *final(self) == (TuiState { tab: TabsState::Pages, ..*old(self) })
            } else if old(self).tab == TabsState::Search {
                final(self).search_query@ == (if old(self).search_query@.len() > 0 {
                    old(self).search_query@.drop_last()
                } else {
                    old(self).search_query@
                }) && *final(self) == (TuiState { search_query: final(self).search_query, ..*old(self) })
            } else {
                *final(self) == *old(self)
            }),
            key == Key::Enter ==> match old(self).tab {
                TabsState::Pages => if old(self).pages_selected < old(self).pages@.len() {
                    c@ == SpecCommand::LoadBlockTree(old(self).pages@[old(self).pages_selected as int].id@)
                        && *final(self) == (TuiState { tab: TabsState::BlocksTree, ..*old(self) })
                } else {
                    c@ == SpecCommand::Nothing && *final(self) == *old(self)
                },
                TabsState::BlocksTree => Self::same_but_detail(*old(self), *final(self)) && final(self).detail_text
                    == old(self).detail_text && c@ == (if old(self).block_tree_selected < old(self).flat().len() {
                    SpecCommand::ToggleExpand(old(self).block_tree_selected)
                } else {
                    SpecCommand::Nothing
                }),
                TabsState::Search => c@ == SpecCommand::RunSearch && *final(self) == *old(self),
                TabsState::Users => c@ == SpecCommand::LoadUsers && *final(self) == *old(self),
                TabsState::Databases => c@ == SpecCommand::LoadDatabases && *final(self) == *old(self),
            },
            (key matches Key::Char(ch) && !is_quit(key) && !is_down(key) && !is_up(key) && key != Key::Char('?'))
                ==> c@ == SpecCommand::Nothing && (if old(self).tab == TabsState::Search {
                final(self).search_query@ == old(self).search_query@.push(key->Char_0) && *final(self) == (TuiState {
                    search_query: final(self).search_query,
                    ..*old(self)
                })
            } else {
                *final(self) == *old(self)
            }),
            key == Key::Other ==> c@ == SpecCommand::Nothing && *final(self) == *old(self),
    {
        match key {
            Key::Char('q') | Key::Esc => {
                if self.show_help {
                    self.show_help = false;
                    Command::Nothing
                } else {
                    Command::Quit
                }
            },
            Key::Char('?') => {
                self.show_help = !self.show_help;
                Command::Nothing
            },
            Key::Tab => {
                self.tab = self.tab.next();
                tab_load_command(self.tab, &self.current_page_id)
            },
            Key::BackTab => {
                self.tab = self.tab.previous();
                tab_load_command(self.tab, &self.current_page_id)
            },
            Key::Down | Key::Char('j') => match self.next_item() {
                Some(i) => Command::ShowResultJson(i),
                None => Command::Nothing,
            },
            Key::Up | Key::Char('k') => match self.prev_item() {
                Some(i) => Command::ShowResultJson(i),
                None => Command::Nothing,
            },
            Key::Backspace => {
                match self.tab {
                    TabsState::BlocksTree => {
                        self.tab = TabsState::Pages;
                    },
                    TabsState::Search => {
                        pop_last_char(&mut self.search_query);
                    },
                    _ => {},
                }
                Command::Nothing
            },
            Key::Enter => match self.tab {
                TabsState::Pages => {
                    if self.pages_selected < self.pages.len() {
                        let id = self.pages[self.pages_selected].id.clone();
                        self.tab = TabsState::BlocksTree;
                        Command::LoadBlockTree(id)
                    } else {
                        Command::Nothing
                    }
                },
                TabsState::BlocksTree => {
                    self.refresh_rows();
                    if self.block_tree_selected < self.flattened_cache.len() {
                        Command::ToggleExpand(self.block_tree_selected)
                    } else {
                        Command::Nothing
                    }
                },
                TabsState::Search => Command::RunSearch,
                TabsState::Users => Command::LoadUsers,
                TabsState::Databases => Command::LoadDatabases,
            },
            Key::Char(ch) => {
                if matches!(self.tab, TabsState::Search) {
                    let mut v = crate::text::chars_of(self.search_query.as_str());
                    v.push(ch);
                    self.search_query = string_of(&v);
                }
                Command::Nothing
            },
            Key::Other => Command::Nothing,
        }
    }
}

/// Whether `needle` occurs in `hay`.
pub open spec fn contains_seq(hay: Seq<char>, needle: Seq<char>) -> bool {
    exists|i: int| 0 <= i && i + needle.len() <= hay.len() && #[trigger] hay.subrange(i, i + needle.len()) == needle
}

/// Whether `needle` occurs in `hay`.
pub fn contains_chars(hay: &[char], needle: &str) -> (r: bool)
    ensures
        r == contains_seq(hay@, needle@),
{
    let n = crate::text::chars_of(needle);
    if n.len() > hay.len() {
        return false;
    }
    let mut i: usize = 0;
    while i <= hay.len() - n.len()
        invariant
            n@ == needle@,
            n.len() <= hay.len(),
            i <= hay.len() - n.len() + 1,
            forall|j: int| 0 <= j < i ==> #[trigger] hay@.subrange(j, j + n.len()) != n@,
        decreases hay.len() - i,
    {
        let mut same = true;
        let mut k: usize = 0;
        while k < n.len()
            invariant
                i + n.len() <= hay.len(),
                k <= n.len(),
                same == (forall|q: int| 0 <= q < k ==> hay@[i + q] == n@[q]),
            decreases n.len() - k,
        {
            if hay[i + k] != n[k] {
                same = false;
            }
            k = k + 1;
        }
        if same {
            assert(hay@.subrange(i as int, i + n.len()) =~= n@);
            return true;
        }
        assert(hay@.subrange(i as int, i + n.len()) != n@) by {
            let w = choose|q: int| 0 <= q < n.len() && hay@[i + q] != n@[q];
            assert(hay@.subrange(i as int, i + n.len())[w] != n@[w]);
        }
        i = i + 1;
    }
    assert forall|j: int| 0 <= j && j + needle@.len() <= hay@.len() implies #[trigger] hay@.subrange(
        j,
        j + needle@.len(),
    ) != needle@ by {
        assert(j < i);
    }
    false
}

/// The tone of a detail text: an error when it mentions one, a success
/// when it mentions one, else normal.
pub open spec fn detail_tone(t: Seq<char>) -> DetailTone {
    if contains_seq(t, "Error"@) || contains_seq(t, "error"@) {
        DetailTone::Error
    } else if contains_seq(t, "Success"@) || contains_seq(t, "success"@) {
        DetailTone::Success
    } else {
        DetailTone::Normal
    }
}

/// `n` copies of two spaces.
pub open spec fn indent_text(n: nat) -> Seq<char>
    decreases n,
{
    if n == 0 {
        seq![]
    } else {
        indent_text((n - 1) as nat) + "  "@
    }
}

/// The list text of a tree row: its indentation, an open or closed
/// marker, and the block type.
pub open spec fn row_label(r: SpecFlatRow) -> Seq<char> {
    indent_text(r.indent as nat) + (if r.expanded {
        "\u{25bc} "@
    } else {
        "\u{25b6} "@
    }) + r.kind
}

/// The list text of a search result: its `id`, else `result <position>`.
pub open spec fn result_label(v: SpecJson, i: nat) -> Seq<char> {
    match as_str_spec(get_spec(v, "id"@)) {
        Some(id) => id,
        None => "result "@ + decimal(i),
    }
}

impl TuiState {
    /// The texts of the list of the current tab.
    pub open spec fn labels(&self) -> Seq<Seq<char>> {
        match self.tab {
            TabsState::Users => Seq::new(
                self.users@.len(),
                |i: int|
                    match self.users@[i].name {
                        Some(n) => n@,
                        None => seq![],
                    },
            ),
            TabsState::Pages => Seq::new(self.pages@.len(), |i: int| properties_title(self.pages@[i].properties@)),
            TabsState::BlocksTree => Seq::new(self.flat().len(), |i: int| row_label(self.flat()[i])),
            TabsState::Databases => Seq::new(
                self.databases@.len(),
                |i: int| plain_of_spans(rich_view(self.databases@[i].title@)),
            ),
            TabsState::Search => Seq::new(
                self.search_results@.len(),
                |i: int| result_label(self.search_results@[i]@, i as nat),
            ),
        }
    }

    /// The text the detail pane shows: on the search tab the query comes
    /// first.
    pub open spec fn detail_shown(&self) -> Seq<char> {
        if self.tab == TabsState::Search {
            "Search: "@ + self.search_query@ + "\n\n"@ + self.detail_text@
        } else {
            self.detail_text@
        }
    }
}

fn row_label_text(r: &FlatRow) -> (s: String)
    ensures
        s@ == row_label(r@),
{
    let mut out: Vec<char> = Vec::new();
    let mut i: usize = 0;
    while i < r.indent
        invariant
            i <= r.indent,
            out@ == indent_text(i as nat),
        decreases r.indent - i,
    {
        extend_str(&mut out, "  ");
        i = i + 1;
    }
    if r.expanded {
        extend_str(&mut out, "\u{25bc} ");
    } else {
        extend_str(&mut out, "\u{25b6} ");
    }
    extend_str(&mut out, r.kind.as_str());
    assert(out@ =~= row_label(r@));
    string_of(&out)
}

fn result_label_text(v: &JsonValue, i: usize) -> (s: String)
    ensures
        s@ == result_label(v@, i as nat),
{
    match v.get("id") {
        Some(JsonValue::String(id)) => id.clone(),
        _ => {
            let mut out: Vec<char> = Vec::new();
            extend_str(&mut out, "result ");
            push_decimal(&mut out, i);
            string_of(&out)
        },
    }
}

impl TuiState {
    /// The texts of the list of the current tab: user names, page titles,
    /// tree rows, database titles, or search result ids.
    pub fn list_labels(&mut self) -> (r: Vec<String>)
        requires
            old(self).wf(),
        ensures
            Seq::new(r@.len(), |i: int| r@[i]@) == old(self).labels(),
            Self::same_but_detail(*old(self), *final(self)),
            final(self).detail_text == old(self).detail_text,
    {
        let ghost want = self.labels();
        let mut out: Vec<String> = Vec::new();
        match self.tab {
            TabsState::Users => {
                let mut i: usize = 0;
                while i < self.users.len()
                    invariant
                        i <= self.users.len(),
                        want == self.labels(),
                        self.tab == TabsState::Users,
                        out@.len() == i,
                        forall|q: int| 0 <= q < i ==> (#[trigger] out@[q])@ == want[q],
                    decreases self.users.len() - i,
                {
                    let l = match &self.users[i].name {
                        Some(n) => n.clone(),
                        None => String::new(),
                    };
                    out.push(l);
                    i = i + 1;
                }
            },
            TabsState::Pages => {
                let mut i: usize = 0;
                while i < self.pages.len()
                    invariant
                        i <= self.pages.len(),
                        want == self.labels(),
                        self.tab == TabsState::Pages,
                        out@.len() == i,
                        forall|q: int| 0 <= q < i ==> (#[trigger] out@[q])@ == want[q],
                    decreases self.pages.len() - i,
                {
                    out.push(self.pages[i].title_from_properties());
                    i = i + 1;
                }
            },
            TabsState::BlocksTree => {
                self.refresh_rows();
                let mut i: usize = 0;
                while i < self.flattened_cache.len()
                    invariant
                        i <= self.flattened_cache.len(),
                        want == self.labels(),
                        self.tab == TabsState::BlocksTree,
                        rows_view(self.flattened_cache@) == self.flat(),
                        out@.len() == i,
                        forall|q: int| 0 <= q < i ==> (#[trigger] out@[q])@ == want[q],
                    decreases self.flattened_cache.len() - i,
                {
                    assert(rows_view(self.flattened_cache@)[i as int] == self.flattened_cache@[i as int]@);
                    out.push(row_label_text(&self.flattened_cache[i]));
                    i = i + 1;
                }
            },
            TabsState::Databases => {
                let mut i: usize = 0;
                while i < self.databases.len()
                    invariant
                        i <= self.databases.len(),
                        want == self.labels(),
                        self.tab == TabsState::Databases,
                        out@.len() == i,
                        forall|q: int| 0 <= q < i ==> (#[trigger] out@[q])@ == want[q],
                    decreases self.databases.len() - i,
                {
                    out.push(self.databases[i].title_text());
                    i = i + 1;
                }
            },
            TabsState::Search => {
                let mut i: usize = 0;
                while i < self.search_results.len()
                    invariant
                        i <= self.search_results.len(),
                        want == self.labels(),
                        self.tab == TabsState::Search,
                        out@.len() == i,
                        forall|q: int| 0 <= q < i ==> (#[trigger] out@[q])@ == want[q],
                    decreases self.search_results.len() - i,
                {
                    out.push(result_label_text(&self.search_results[i], i));
                    i = i + 1;
                }
            },
        }
        assert(Seq::new(out@.len(), |i: int| out@[i]@) =~= want);
        out
    }

    /// The detail pane: its text and how it is coloured.
    pub fn detail_view(&self) -> (r: (String, DetailTone))
        ensures
            r.0@ == self.detail_shown(),
            r.1 == detail_tone(self.detail_shown()),
    {
        let mut out: Vec<char> = Vec::new();
        if matches!(self.tab, TabsState::Search) {
            extend_str(&mut out, "Search: ");
            extend_str(&mut out, self.search_query.as_str());
            extend_str(&mut out, "\n\n");
        }
        extend_str(&mut out, self.detail_text.as_str());
        assert(out@ =~= self.detail_shown());
        let tone = if contains_chars(out.as_slice(), "Error") || contains_chars(out.as_slice(), "error") {
            DetailTone::Error
        } else if contains_chars(out.as_slice(), "Success") || contains_chars(out.as_slice(), "success") {
            DetailTone::Success
        } else {
            DetailTone::Normal
        };
        (string_of(&out), tone)
    }

    /// The footer line: the key help and the status.
    pub fn footer_text(&self) -> (r: String)
        ensures
            r@ == " [q]uit | [tab] next tab | [j/k] move | [enter] select | Status: "@ + self.status_message@,
    {
        let mut out: Vec<char> = Vec::new();
        extend_str(&mut out, " [q]uit | [tab] next tab | [j/k] move | [enter] select | Status: ");
        extend_str(&mut out, self.status_message.as_str());
        string_of(&out)
    }

    /// The title of the tab bar, marked while loading.
    pub fn title_text(&self) -> (r: String)
        ensures
            r@ == (if self.is_loading {
                "\u{27f3} "@
            } else {
                seq![]
            }) + "notion-rs TUI"@,
    {
        let mut out: Vec<char> = Vec::new();
        if self.is_loading {
            extend_str(&mut out, "\u{27f3} ");
        }
        extend_str(&mut out, "notion-rs TUI");
        assert(out@ =~= (if self.is_loading {
            "\u{27f3} "@
        } else {
            seq![]
        }) + "notion-rs TUI"@);
        string_of(&out)
    }
}

} // verus!
