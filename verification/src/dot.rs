//! How the node tree is drawn: shapes, colours, line styles, the file a
//! node links to, and which nodes and edges the graph shows.

use vstd::prelude::*;
use vstd::string::*;
use crate::node::{Node, NodeView, VARIANT, STATE, PROPERTY, lemma_nodes_view_index};
use crate::pathname::{path_strip_prefix, path_extension, strip_path_prefix, extension};
use crate::text::str_equal;

verus! {

/// The Graphviz shape of a node of kind `kind`.
pub open spec fn dot_shape(kind: VARIANT) -> Seq<char> {
    match kind {
        VARIANT::Root => "house"@,
        VARIANT::Group => "folder"@,
        VARIANT::Package => "hexagon"@,
        VARIANT::Item => "ellipse"@,
        _ => "rect"@,
    }
}

/// The Graphviz fill colour of a node in state `state`.
pub open spec fn dot_color(state: STATE) -> Seq<char> {
    match state {
        STATE::Open => "lightBlue"@,
        STATE::Planed => "blue"@,
        STATE::Working => "yellow"@,
        STATE::Closed => "green"@,
        _ => "grey"@,
    }
}

/// The Graphviz line style of a node of priority `property`.
pub open spec fn dot_style(property: PROPERTY) -> Seq<char> {
    match property {
        PROPERTY::Muss => "bold"@,
        PROPERTY::Soll => "solid"@,
        PROPERTY::NiceToHave => "dashed"@,
        _ => "dotted"@,
    }
}

/// The shape of a node of kind `kind`.
#[allow(non_snake_case)]
pub fn getDotShape(kind: &VARIANT) -> (r: &'static str)
    ensures
        r@ == dot_shape(*kind),
{
    match kind {
        VARIANT::Root => "house",
        VARIANT::Group => "folder",
        VARIANT::Package => "hexagon",
        VARIANT::Item => "ellipse",
        _ => "rect",
    }
}

/// The fill colour of a node in state `kind`.
#[allow(non_snake_case)]
pub fn getDotColor(kind: &STATE) -> (r: &'static str)
    ensures
        r@ == dot_color(*kind),
{
    match kind {
        STATE::Open => "lightBlue",
        STATE::Planed => "blue",
        STATE::Working => "yellow",
        STATE::Closed => "green",
        _ => "grey",
    }
}

/// The line style of a node of priority `kind`.
#[allow(non_snake_case)]
pub fn getDotStyle(kind: &PROPERTY) -> (r: &'static str)
    ensures
        r@ == dot_style(*kind),
{
    match kind {
        PROPERTY::Muss => "bold",
        PROPERTY::Soll => "solid",
        PROPERTY::NiceToHave => "dashed",
        _ => "dotted",
    }
}

/// The link target of a node from the file `file`: leading `../` components
/// are dropped; then a path without extension gives itself followed by `/`,
/// a Markdown file gives `md`, and any other extension gives nothing.
pub open spec fn dot_file_name(file: Seq<char>) -> Option<Seq<char>>
    decreases file.len(),
{
    match path_strip_prefix(file, "../"@) {
        // The rest is always shorter (see `strip_path_prefix`); the test
        // only lets the definition be seen to terminate.
        Some(rest) => if rest.len() < file.len() {
            dot_file_name(rest)
        } else {
            None
        },
        None => match path_extension(file) {
            None => Some(file + "/"@),
            Some(ext) => if ext == "md"@ {
                Some(ext)
            } else {
                None
            },
        },
    }
}

/// Whether `file` has a link target (see `dot_file_name`).
pub fn has_dot_file_name(file: &str) -> (b: bool)
    ensures
        b == dot_file_name(file@) is Some,
    decreases file@.len(),
{
    proof {
        reveal_strlit("../");
    }
    match strip_path_prefix(file, "../") {
        Some(rest) => has_dot_file_name(rest.as_str()),
        None => match extension(file) {
            None => true,
            Some(ext) => str_equal(ext.as_str(), "md"),
        },
    }
}

/// The link target of a node from the file `file` (see `dot_file_name`).
#[allow(non_snake_case)]
pub fn getDotFileName(file: &String) -> (r: String)
    requires
        dot_file_name(file@) is Some,
    ensures
        dot_file_name(file@) == Some(r@),
    decreases file@.len(),
{
    proof {
        reveal_strlit("../");
    }
    match strip_path_prefix(file.as_str(), "../") {
        Some(rest) => getDotFileName(&rest),
        None => match extension(file.as_str()) {
            None => {
                let mut r = file.clone();
                r.append("/");
                r
            },
            Some(ext) => {
                if !str_equal(ext.as_str(), "md") {
                    proof {
                        assert(false);
                    }
                }
                ext
            },
        },
    }
}

/// The link target of a node from the file `file`, or `None` where the file
/// has an extension other than `md` (see `dot_file_name`).
pub fn try_dot_file_name(file: &String) -> (r: Option<String>)
    ensures
        r matches Some(s) ==> dot_file_name(file@) == Some(s@),
        r is None ==> dot_file_name(file@) is None,
{
    if has_dot_file_name(file.as_str()) {
        Some(getDotFileName(file))
    } else {
        None
    }
}


/// One thing the graph shows.
pub enum DotItem {
    /// A node: its id, name, days, shape, fill colour, line style and link target.
    Node {
        id: u32,
        name: String,
        day: u32,
        shape: &'static str,
        color: &'static str,
        style: &'static str,
        url: String,
    },
    /// An edge from the node `from` to its child `to`.
    Edge { from: u32, to: u32 },
}

/// The mathematical value of a `DotItem`.
pub enum DotItemView {
    Node {
        id: nat,
        name: Seq<char>,
        day: nat,
        shape: Seq<char>,
        color: Seq<char>,
        style: Seq<char>,
        url: Seq<char>,
    },
    Edge { from: nat, to: nat },
}

impl View for DotItem {
    type V = DotItemView;

    open spec fn view(&self) -> DotItemView {
        match self {
            DotItem::Node { id, name, day, shape, color, style, url } => DotItemView::Node {
                id: *id as nat,
                name: name@,
                day: *day as nat,
                shape: shape@,
                color: color@,
                style: style@,
                url: url@,
            },
            DotItem::Edge { from, to } => DotItemView::Edge { from: *from as nat, to: *to as nat },
        }
    }
}

/// The values of the items of `s`, in order.
pub open spec fn items_view(s: Seq<DotItem>) -> Seq<DotItemView> {
    s.map_values(|d: DotItem| d@)
}

/// Whether a child of kind `kind` in state `state` is drawn: unknown packages
/// and items, closed state nodes and closed items are left out, with all
/// that is below them.
pub open spec fn is_drawn(kind: VARIANT, state: STATE) -> bool {
    match (kind, state) {
        (VARIANT::Package, STATE::Unknown) => false,
        (VARIANT::Item, STATE::Unknown) => false,
        (VARIANT::State, STATE::Closed) => false,
        (VARIANT::Item, STATE::Closed) => false,
        _ => true,
    }
}

/// What drawing the node `n` gives: its own item, then for each drawn child
/// an edge to it followed by what drawing the child gives; and whether the
/// drawing is complete. Drawing stops at the first node whose file has no
/// link target (see `dot_file_name`), before that node's item.
pub open spec fn dot_node(n: NodeView) -> (Seq<DotItemView>, bool)
    decreases n, 0int,
{
    match dot_file_name(n.file) {
        None => (Seq::empty(), false),
        Some(url) => {
            let head = DotItemView::Node {
                id: n.id,
                name: n.name,
                day: n.day,
                shape: dot_shape(n.kind),
                color: dot_color(n.state),
                style: dot_style(n.property),
                url: url,
            };
            let rest = dot_children(n.id, n.children, 0);
            (seq![head] + rest.0, rest.1)
        },
    }
}

/// What drawing the children `kids` of the node `parent` from the `i`-th on
/// gives (see `dot_node`).
pub open spec fn dot_children(parent: nat, kids: Seq<NodeView>, i: int) -> (Seq<DotItemView>, bool)
    decreases kids, kids.len() - i,
{
    if i < 0 || i >= kids.len() {
        (Seq::empty(), true)
    } else if !is_drawn(kids[i].kind, kids[i].state) {
        dot_children(parent, kids, i + 1)
    } else {
        let edge = DotItemView::Edge { from: parent, to: kids[i].id };
        let sub = dot_node(kids[i]);
        if !sub.1 {
            (seq![edge] + sub.0, false)
        } else {
            let rest = dot_children(parent, kids, i + 1);
            (seq![edge] + sub.0 + rest.0, rest.1)
        }
    }
}

/// Appends to `out` what drawing `root` gives (see `dot_node`), and returns
/// whether the drawing is complete: it stops at the first node whose file
/// has an extension other than `md`.
#[allow(non_snake_case)]
pub fn generateDot(root: &Node, out: &mut Vec<DotItem>) -> (complete: bool)
    ensures
        items_view(final(out)@) == items_view(old(out)@) + dot_node(root@).0,
        complete == dot_node(root@).1,
    decreases root,
{
    let url = match try_dot_file_name(&root.file) {
        None => {
            assert(items_view(out@) =~= items_view(out@) + Seq::<DotItemView>::empty());
            return false;
        },
        Some(u) => u,
    };
    let ghost out0 = items_view(out@);
    out.push(
        DotItem::Node {
            id: root.id,
            name: root.name.clone(),
            day: root.day,
            shape: getDotShape(&root.kind),
            color: getDotColor(&root.state),
            style: getDotStyle(&root.property),
            url: url,
        },
    );
    let ghost kids = root@.children;
    let ghost target = items_view(old(out)@) + dot_node(root@).0;
    proof {
        lemma_nodes_view_index(root.children@);
        assert(items_view(out@) =~= out0.push(out@.last()@));
    }
    let mut i: usize = 0;
    while i < root.children.len()
        invariant
            i <= root.children.len(),
            kids == root@.children,
            kids.len() == root.children.len(),
            forall|j: int| 0 <= j < kids.len() ==> #[trigger] kids[j] == root.children@[j]@,
            dot_file_name(root@.file) is Some,
            items_view(out@) + dot_children(root@.id, kids, i as int).0 == target,
            dot_children(root@.id, kids, i as int).1 == dot_children(root@.id, kids, 0).1,
            dot_node(root@).1 == dot_children(root@.id, kids, 0).1,
            target == items_view(old(out)@) + dot_node(root@).0,
        decreases root.children.len() - i,
    {
        let child = &root.children[i];
        if is_drawn_exec(&child.kind, &child.state) {
            let ghost before = items_view(out@);
            out.push(DotItem::Edge { from: root.id, to: child.id });
            proof {
                assert(items_view(out@) =~= before.push(out@.last()@));
            }
            let ghost mid = items_view(out@);
            let sub_complete = generateDot(child, out);
            if !sub_complete {
                proof {
                    assert(items_view(out@) =~= before + dot_children(root@.id, kids, i as int).0);
                    assert(items_view(out@) =~= target);
                }
                return false;
            }
            proof {
                let rest = dot_children(root@.id, kids, i + 1);
                assert(items_view(out@) + rest.0 =~= before + dot_children(root@.id, kids, i as int).0);
            }
        }
        i = i + 1;
    }
    proof {
        assert(items_view(out@) =~= items_view(out@) + dot_children(root@.id, kids, i as int).0);
    }
    true
}

/// Whether every edge in `items` is directly followed by the node it leads to.
pub open spec fn edges_followed(items: Seq<DotItemView>) -> bool {
    forall|i: int|
        0 <= i < items.len() && (#[trigger] items[i] is Edge) ==> i + 1 < items.len()
            && items[i + 1] is Node && items[i + 1]->Node_id == items[i]->Edge_to
}

proof fn lemma_edges_followed_concat(a: Seq<DotItemView>, b: Seq<DotItemView>)
    requires
        edges_followed(a),
        edges_followed(b),
    ensures
        edges_followed(a + b),
{
    let c = a + b;
    assert forall|i: int| 0 <= i < c.len() && (#[trigger] c[i] is Edge) implies i + 1 < c.len()
        && c[i + 1] is Node && c[i + 1]->Node_id == c[i]->Edge_to by {
        if i < a.len() {
            assert(a[i] is Edge);
        } else {
            assert(b[i - a.len()] is Edge);
        }
    }
}

/// A complete drawing has no dangling edge: every edge is directly followed
/// by the node it leads to, and the drawing starts with the node drawn.
pub proof fn law_complete_drawing_edges_followed(n: NodeView)
    ensures
        dot_node(n).1 ==> edges_followed(dot_node(n).0),
        dot_node(n).1 ==> dot_node(n).0.len() > 0 && dot_node(n).0[0] is Node && dot_node(n).0[0]->Node_id == n.id,
    decreases n, 0int,
{
    if dot_file_name(n.file) is Some {
        let rest = dot_children(n.id, n.children, 0);
        law_complete_children_edges_followed(n.id, n.children, 0);
        let head = dot_node(n).0[0];
        assert(edges_followed(seq![head]));
        if rest.1 {
            lemma_edges_followed_concat(seq![head], rest.0);
        }
    }
}

/// Drawing the children of a node completely leaves no dangling edge (see
/// `law_complete_drawing_edges_followed`).
pub proof fn law_complete_children_edges_followed(parent: nat, kids: Seq<NodeView>, i: int)
    ensures
        dot_children(parent, kids, i).1 ==> edges_followed(dot_children(parent, kids, i).0),
    decreases kids, kids.len() - i,
{
    if 0 <= i < kids.len() {
        if !is_drawn(kids[i].kind, kids[i].state) {
            law_complete_children_edges_followed(parent, kids, i + 1);
        } else {
            let edge = DotItemView::Edge { from: parent, to: kids[i].id };
            let sub = dot_node(kids[i]);
            law_complete_drawing_edges_followed(kids[i]);
            if sub.1 {
                let rest = dot_children(parent, kids, i + 1);
                law_complete_children_edges_followed(parent, kids, i + 1);
                let first = seq![edge] + sub.0;
                assert forall|j: int| 0 <= j < first.len() && (#[trigger] first[j] is Edge) implies j + 1 < first.len()
                    && first[j + 1] is Node && first[j + 1]->Node_id == first[j]->Edge_to by {
                    if j > 0 {
                        assert(sub.0[j - 1] is Edge);
                    }
                }
                if rest.1 {
                    lemma_edges_followed_concat(first, rest.0);
                }
            }
        }
    } else {
        assert(edges_followed(Seq::<DotItemView>::empty()));
    }
}

proof fn lemma_dot_children_suffix(parent: nat, a: Seq<NodeView>, i: int, b: Seq<NodeView>, j: int)
    requires
        0 <= i <= a.len(),
        0 <= j <= b.len(),
        a.subrange(i, a.len() as int) == b.subrange(j, b.len() as int),
    ensures
        dot_children(parent, a, i) == dot_children(parent, b, j),
    decreases a.len() - i,
{
    assert(a.subrange(i, a.len() as int).len() == a.len() - i);
    assert(b.subrange(j, b.len() as int).len() == b.len() - j);
    if i < a.len() {
        assert(j < b.len());
        assert(a[i] == a.subrange(i, a.len() as int)[0]);
        assert(b[j] == b.subrange(j, b.len() as int)[0]);
        assert(a.subrange(i + 1, a.len() as int) =~= a.subrange(i, a.len() as int).subrange(1, a.len() - i));
        assert(b.subrange(j + 1, b.len() as int) =~= b.subrange(j, b.len() as int).subrange(1, b.len() - j));
        lemma_dot_children_suffix(parent, a, i + 1, b, j + 1);
    } else {
        assert(b.subrange(j, b.len() as int).len() == 0);
    }
}

proof fn lemma_dot_children_remove(parent: nat, kids: Seq<NodeView>, i: int, j: int)
    requires
        0 <= i <= j < kids.len(),
        !is_drawn(kids[j].kind, kids[j].state),
    ensures
        dot_children(parent, kids, i) == dot_children(parent, kids.remove(j), i),
    decreases j - i,
{
    let r = kids.remove(j);
    if i < j {
        assert(r[i] == kids[i]);
        lemma_dot_children_remove(parent, kids, i + 1, j);
    } else {
        assert(kids.subrange(j + 1, kids.len() as int) =~= r.subrange(j, r.len() as int));
        lemma_dot_children_suffix(parent, kids, j + 1, r, j);
    }
}

/// A child that is an unknown package, an unknown item, a closed state node
/// or a closed item is never drawn, nor anything below it, nor an edge to
/// it: drawing a node gives the same as drawing it without that child.
pub proof fn law_hidden_children_not_drawn(n: NodeView, j: int)
    requires
        0 <= j < n.children.len(),
        (n.children[j].kind == VARIANT::Package && n.children[j].state == STATE::Unknown)
            || (n.children[j].kind == VARIANT::Item && n.children[j].state == STATE::Unknown)
            || (n.children[j].kind == VARIANT::State && n.children[j].state == STATE::Closed)
            || (n.children[j].kind == VARIANT::Item && n.children[j].state == STATE::Closed),
    ensures
        dot_node(n) == dot_node(NodeView { children: n.children.remove(j), ..n }),
{
    lemma_dot_children_remove(n.id, n.children, 0, j);
}

/// A child of any other kind and state is drawn: drawing its parent, where
/// the drawing gets that far, gives an edge to it.
pub proof fn law_other_children_drawn(parent: nat, kids: Seq<NodeView>, i: int)
    requires
        0 <= i < kids.len(),
        !((kids[i].kind == VARIANT::Package && kids[i].state == STATE::Unknown)
            || (kids[i].kind == VARIANT::Item && kids[i].state == STATE::Unknown)
            || (kids[i].kind == VARIANT::State && kids[i].state == STATE::Closed)
            || (kids[i].kind == VARIANT::Item && kids[i].state == STATE::Closed)),
    ensures
        dot_children(parent, kids, i).0.len() > 0,
        dot_children(parent, kids, i).0[0] == (DotItemView::Edge { from: parent, to: kids[i].id }),
{
}

/// Every kind, state and priority has its own look: a house for the root, a
/// folder for groups, a hexagon for packages, an ellipse for items and a
/// rectangle for the rest; light blue, blue, yellow, green and grey for open,
/// planned, working, closed and unknown; bold, solid, dashed and dotted
/// lines for must, should, nice-to-have and unknown.
pub proof fn law_dot_attributes()
    ensures
        dot_shape(VARIANT::Root) == "house"@ && dot_shape(VARIANT::Group) == "folder"@
            && dot_shape(VARIANT::Package) == "hexagon"@ && dot_shape(VARIANT::Item) == "ellipse"@
            && dot_shape(VARIANT::State) == "rect"@ && dot_shape(VARIANT::Dependency) == "rect"@,
        dot_color(STATE::Open) == "lightBlue"@ && dot_color(STATE::Planed) == "blue"@
            && dot_color(STATE::Working) == "yellow"@ && dot_color(STATE::Closed) == "green"@
            && dot_color(STATE::Unknown) == "grey"@,
        dot_style(PROPERTY::Muss) == "bold"@ && dot_style(PROPERTY::Soll) == "solid"@
            && dot_style(PROPERTY::NiceToHave) == "dashed"@ && dot_style(PROPERTY::Unknown) == "dotted"@,
{
}

/// The link target of a file: a leading `../` is dropped (the rest links as
/// it would on its own); then a path without extension links to itself
/// followed by `/`, a Markdown file to `md`, and a file of any other
/// extension to nothing.
pub proof fn law_dot_file_name(file: Seq<char>)
    ensures
        path_strip_prefix(file, "../"@) is Some && path_strip_prefix(file, "../"@).unwrap().len() < file.len()
            ==> dot_file_name(file) == dot_file_name(path_strip_prefix(file, "../"@).unwrap()),
        path_strip_prefix(file, "../"@) is None && path_extension(file) is None
            ==> dot_file_name(file) == Some(file + "/"@),
        path_strip_prefix(file, "../"@) is None && path_extension(file) == Some("md"@)
            ==> dot_file_name(file) == Some("md"@),
        path_strip_prefix(file, "../"@) is None && path_extension(file) is Some
            && path_extension(file).unwrap() != "md"@ ==> dot_file_name(file) is None,
{
}

/// A drawing starts with the node drawn, showing its own name, id, days,
/// and its link target; it is complete only where that node has one.
pub proof fn law_drawing_starts_with_node(n: NodeView)
    ensures
        dot_file_name(n.file) is None ==> dot_node(n).0.len() == 0 && !dot_node(n).1,
        dot_file_name(n.file) matches Some(url) ==> dot_node(n).0.len() > 0 && dot_node(n).0[0] == (DotItemView::Node {
            id: n.id,
            name: n.name,
            day: n.day,
            shape: dot_shape(n.kind),
            color: dot_color(n.state),
            style: dot_style(n.property),
            url: url,
        }),
{
}

/// Whether a child of kind `kind` in state `state` is drawn (see `is_drawn`).
pub fn is_drawn_exec(kind: &VARIANT, state: &STATE) -> (b: bool)
    ensures
        b == is_drawn(*kind, *state),
{
    match (kind, state) {
        (VARIANT::Package, STATE::Unknown) => false,
        (VARIANT::Item, STATE::Unknown) => false,
        (VARIANT::State, STATE::Closed) => false,
        (VARIANT::Item, STATE::Closed) => false,
        _ => true,
    }
}

} // verus!
