//! Planning nodes: the kinds, states and priorities a node can have, the
//! node tree itself, and the rules by which a child is attached to a parent.

use vstd::prelude::*;
use crate::text::{ascii_lower, ascii_lower_char, lower_equal, str_equal};

verus! {

/// What a node stands for in the plan.
#[derive(PartialEq, Eq, Structural, Clone, Copy, Debug)]
pub enum VARIANT {
    Root,
    Group,
    Package,
    Dependency,
    State,
    Item,
}

/// How far the work of a node has come.
#[derive(PartialEq, Eq, Structural, Clone, Copy, Debug)]
pub enum STATE {
    Open,
    Planed,
    Working,
    Closed,
    Unknown,
}

/// How much a node is wanted: a must, a should, or a nice-to-have.
#[derive(PartialEq, Eq, Structural, Clone, Copy, Debug)]
pub enum PROPERTY {
    Muss,
    Soll,
    NiceToHave,
    Unknown,
}

/// Hands out node ids: each id is one more than the one before it.
pub struct IdCounter {
    /// The id handed out last (0 before the first).
    pub last: u32,
}

impl IdCounter {
    /// The id that the counter hands out next.
    pub open spec fn next_id(self) -> nat {
        self.last as nat + 1
    }

    /// A counter that has handed out no id yet.
    pub fn new() -> (r: IdCounter)
        ensures
            r.last == 0,
    {
        IdCounter { last: 0 }
    }

    /// The next id: one more than the last one handed out.
    pub fn next(&mut self) -> (id: u32)
        requires
            old(self).last < u32::MAX,
        ensures
            id == old(self).last + 1,
            final(self).last == id,
    {
        self.last = self.last + 1;
        self.last
    }
}

/// A node of the plan. All nodes of a tree own their children.
pub struct Node {
    pub id: u32,
    pub name: String,
    pub file: String,
    pub kind: VARIANT,
    pub state: STATE,
    pub property: PROPERTY,
    /// The cost of the node as its source line writes it (`"0"` where none is given).
    pub cost_text: String,
    pub day: u32,
    pub children: Vec<Node>,
}

/// The mathematical value of a `Node`.
#[verifier::ext_equal]
pub struct NodeView {
    pub id: nat,
    pub name: Seq<char>,
    pub file: Seq<char>,
    pub kind: VARIANT,
    pub state: STATE,
    pub property: PROPERTY,
    pub cost_text: Seq<char>,
    pub day: nat,
    pub children: Seq<NodeView>,
}

/// The values of the nodes of `s`, in order.
pub open spec fn nodes_view(s: Seq<Node>) -> Seq<NodeView>
    decreases s,
{
    if s.len() == 0 {
        Seq::empty()
    } else {
        nodes_view(s.drop_last()).push(node_view(s.last()))
    }
}

/// The value of the node `n` and of its whole subtree.
pub open spec fn node_view(n: Node) -> NodeView
    decreases n,
{
    NodeView {
        id: n.id as nat,
        name: n.name@,
        file: n.file@,
        kind: n.kind,
        state: n.state,
        property: n.property,
        cost_text: n.cost_text@,
        day: n.day as nat,
        children: nodes_view(n.children@),
    }
}

pub proof fn lemma_nodes_view_index(s: Seq<Node>)
    ensures
        nodes_view(s).len() == s.len(),
        forall|i: int| 0 <= i < s.len() ==> #[trigger] nodes_view(s)[i] == node_view(s[i]),
    decreases s.len(),
{
    if s.len() > 0 {
        lemma_nodes_view_index(s.drop_last());
    }
}

impl View for Node {
    type V = NodeView;

    open spec fn view(&self) -> NodeView {
        node_view(*self)
    }
}


/// The kind and state that `Node::new` gives a node named `line`.
pub open spec fn kind_state_of(line: Seq<char>) -> (VARIANT, STATE) {
    if line == "Planned"@ {
        (VARIANT::State, STATE::Open)
    } else if line == "Done"@ {
        (VARIANT::State, STATE::Closed)
    } else if line == "Dependencies"@ {
        (VARIANT::Dependency, STATE::Unknown)
    } else {
        (VARIANT::Item, STATE::Unknown)
    }
}

/// A childless node with the given fields, no priority, cost `"0"` and no days.
pub open spec fn fresh_node(
    id: nat,
    name: Seq<char>,
    file: Seq<char>,
    kind: VARIANT,
    state: STATE,
) -> NodeView {
    NodeView {
        id,
        name,
        file,
        kind,
        state,
        property: PROPERTY::Unknown,
        cost_text: "0"@,
        day: 0,
        children: Seq::empty(),
    }
}

/// The node that `Node::new` makes from `line` and `path` under the id `id`.
pub open spec fn new_node_spec(line: Seq<char>, path: Seq<char>, id: nat) -> NodeView {
    fresh_node(id, line, path, kind_state_of(line).0, kind_state_of(line).1)
}

/// The node that `Node::new2` makes from `line`, `path` and `kind` under the id `id`.
pub open spec fn new2_node_spec(line: Seq<char>, path: Seq<char>, kind: VARIANT, id: nat) -> NodeView {
    fresh_node(id, line, path, kind, STATE::Unknown)
}

/// The priority that `setProperty` reads from `prop`, letter case aside.
pub open spec fn property_of(prop: Seq<char>) -> PROPERTY {
    let p = ascii_lower(prop);
    if p == "muss"@ {
        PROPERTY::Muss
    } else if p == "soll"@ {
        PROPERTY::Soll
    } else if p == "nicetohave"@ || p == "nice to have"@ {
        PROPERTY::NiceToHave
    } else {
        PROPERTY::Unknown
    }
}

/// The states of parent and child once the child is attached: a parent of
/// unknown state takes the child's; an open parent and a closed child (or the
/// other way round) make the parent working; otherwise a child of unknown state
/// takes the parent's.
pub open spec fn merged_states(parent: STATE, child: STATE) -> (STATE, STATE) {
    match (parent, child) {
        (STATE::Unknown, _) => (child, child),
        (STATE::Open, STATE::Closed) => (STATE::Working, child),
        (STATE::Closed, STATE::Open) => (STATE::Working, child),
        (_, STATE::Unknown) => (parent, parent),
        _ => (parent, child),
    }
}

/// `child` attached as the last child of `parent`: the states are merged and
/// the child's days are added to the parent's.
pub open spec fn add_child_spec(parent: NodeView, child: NodeView) -> NodeView {
    let (ps, cs) = merged_states(parent.state, child.state);
    NodeView {
        state: ps,
        day: parent.day + child.day,
        children: parent.children.push(NodeView { state: cs, ..child }),
        ..parent
    }
}

impl Node {
    /// A node named `line` from the file `path`, with the next id of `ids`.
    /// The names "Planned", "Done" and "Dependencies" mark state and
    /// dependency nodes; any other name makes an item.
    pub fn new(line: String, path: &str, ids: &mut IdCounter) -> (r: Node)
        requires
            old(ids).last < u32::MAX,
        ensures
            final(ids).last == old(ids).last + 1,
            r@ == new_node_spec(line@, path@, final(ids).last as nat),
    {
        let curr_id = ids.next();
        let (kind, state) = if str_equal(line.as_str(), "Planned") {
            (VARIANT::State, STATE::Open)
        } else if str_equal(line.as_str(), "Done") {
            (VARIANT::State, STATE::Closed)
        } else if str_equal(line.as_str(), "Dependencies") {
            (VARIANT::Dependency, STATE::Unknown)
        } else {
            (VARIANT::Item, STATE::Unknown)
        };
        let r = Node {
            id: curr_id,
            name: line,
            file: path.to_owned(),
            kind: kind,
            state: state,
            property: PROPERTY::Unknown,
            cost_text: "0".to_owned(),
            day: 0,
            children: Vec::new(),
        };
        assert(r@.children =~= Seq::<NodeView>::empty());
        r
    }

    /// A node of kind `kind` named `line` from the file `path`, of unknown
    /// state, with the next id of `ids`.
    pub fn new2(line: String, path: &str, kind: VARIANT, ids: &mut IdCounter) -> (r: Node)
        requires
            old(ids).last < u32::MAX,
        ensures
            final(ids).last == old(ids).last + 1,
            r@ == new2_node_spec(line@, path@, kind, final(ids).last as nat),
    {
        let curr_id = ids.next();
        let r = Node {
            id: curr_id,
            name: line,
            file: path.to_owned(),
            kind: kind,
            state: STATE::Unknown,
            property: PROPERTY::Unknown,
            cost_text: "0".to_owned(),
            day: 0,
            children: Vec::new(),
        };
        assert(r@.children =~= Seq::<NodeView>::empty());
        r
    }
}

/// Sets the priority of `node` from `prop` ("muss", "soll", "nicetohave" or
/// "nice to have", in any ASCII letter case; anything else is unknown).
#[allow(non_snake_case)]
pub fn setProperty(node: &mut Node, prop: &str)
    ensures
        final(node)@ == (NodeView { property: property_of(prop@), ..old(node)@ }),
{
    let p = if lower_equal(prop, "muss") {
        PROPERTY::Muss
    } else if lower_equal(prop, "soll") {
        PROPERTY::Soll
    } else if lower_equal(prop, "nicetohave") {
        PROPERTY::NiceToHave
    } else if lower_equal(prop, "nice to have") {
        PROPERTY::NiceToHave
    } else {
        PROPERTY::Unknown
    };
    node.property = p;
}

/// Attaches `child` as the last child of `parent`, merging their states
/// (see `merged_states`) and adding the child's days to the parent's.
#[allow(non_snake_case)]
pub fn addChild(parent: &mut Node, child: Node)
    requires
        old(parent).day + child.day <= u32::MAX,
    ensures
        final(parent)@ == add_child_spec(old(parent)@, child@),
{
    let mut child = child;
    let ghost old_children = parent.children@;
    match (parent.state, child.state) {
        (STATE::Unknown, _) => {
            parent.state = child.state;
        },
        (STATE::Open, STATE::Closed) | (STATE::Closed, STATE::Open) => {
            parent.state = STATE::Working;
        },
        (_, STATE::Unknown) => {
            child.state = parent.state;
        },
        (_, _) => {},
    }
    parent.day = parent.day + child.day;
    let ghost cv = child@;
    parent.children.push(child);
    assert(parent.children@.drop_last() =~= old_children);
    assert(nodes_view(parent.children@) =~= nodes_view(old_children).push(cv));
}


/// The days of the nodes of `kids`, added up.
pub open spec fn children_days(kids: Seq<NodeView>) -> nat
    decreases kids.len(),
{
    if kids.len() == 0 {
        0
    } else {
        children_days(kids.drop_last()) + kids.last().day
    }
}

/// The ids of the nodes of the tree `n`, in pre-order.
pub open spec fn tree_ids(n: NodeView) -> Seq<nat>
    decreases n,
{
    seq![n.id] + forest_ids(n.children)
}

/// The ids of the nodes of the trees `kids`, in pre-order.
pub open spec fn forest_ids(kids: Seq<NodeView>) -> Seq<nat>
    decreases kids,
{
    if kids.len() == 0 {
        Seq::empty()
    } else {
        forest_ids(kids.drop_last()) + tree_ids(kids.last())
    }
}

/// Attaching a child keeps what a node has of its own: its days less those
/// of its children stay what they were.
pub proof fn law_add_child_keeps_own_days(parent: NodeView, child: NodeView)
    requires
        parent.day >= children_days(parent.children),
    ensures
        add_child_spec(parent, child).day >= children_days(add_child_spec(parent, child).children),
        add_child_spec(parent, child).day - children_days(add_child_spec(parent, child).children)
            == parent.day - children_days(parent.children),
{
    let after = add_child_spec(parent, child);
    assert(after.children.drop_last() =~= parent.children);
}

/// A parent whose state is known never loses it by attaching a child; a
/// parent whose state is unknown takes the child's.
pub proof fn law_add_child_keeps_known_state(parent: NodeView, child: NodeView)
    ensures
        parent.state != STATE::Unknown ==> add_child_spec(parent, child).state != STATE::Unknown,
        parent.state == STATE::Unknown ==> add_child_spec(parent, child).state == child.state,
{
}

/// An attached child of unknown state takes the state of a parent whose
/// state is known; an open parent and a closed child, or a closed parent and
/// an open child, make the parent working.
pub proof fn law_add_child_state_rules(parent: NodeView, child: NodeView)
    ensures
        parent.state != STATE::Unknown && child.state == STATE::Unknown
            ==> add_child_spec(parent, child).children.last().state == parent.state,
        (parent.state == STATE::Open && child.state == STATE::Closed)
            || (parent.state == STATE::Closed && child.state == STATE::Open)
            ==> add_child_spec(parent, child).state == STATE::Working,
{
}

/// Attaching a child changes the state of a parent whose state is known only
/// where one of the two is open and the other closed; and it changes the
/// state of a child whose state is known never.
pub proof fn law_add_child_keeps_settled_state(parent: NodeView, child: NodeView)
    ensures
        parent.state != STATE::Unknown
            && !(parent.state == STATE::Open && child.state == STATE::Closed)
            && !(parent.state == STATE::Closed && child.state == STATE::Open)
            ==> add_child_spec(parent, child).state == parent.state,
        child.state != STATE::Unknown ==> add_child_spec(parent, child).children.last().state == child.state,
        add_child_spec(parent, child).children.len() == parent.children.len() + 1,
{
}

/// Two nodes of unknown state stay unknown when one is attached to the other.
pub proof fn law_add_child_unknown_pair(parent: NodeView, child: NodeView)
    ensures
        parent.state == STATE::Unknown && child.state == STATE::Unknown ==> add_child_spec(parent, child).state
            == STATE::Unknown && add_child_spec(parent, child).children.last().state == STATE::Unknown,
        add_child_spec(parent, child).id == parent.id && add_child_spec(parent, child).name == parent.name
            && add_child_spec(parent, child).file == parent.file && add_child_spec(parent, child).kind == parent.kind,
{
}

/// `Node::new` makes a state node only of "Planned" (open) and "Done"
/// (closed), a dependency node only of "Dependencies", and an item of
/// unknown state of any other name; every new node, made by `Node::new` or
/// `Node::new2`, has no children, no days, cost "0" and no priority.
pub proof fn law_new_node_kinds(line: Seq<char>, path: Seq<char>, kind: VARIANT, id: nat)
    ensures
        line == "Planned"@ ==> new_node_spec(line, path, id).kind == VARIANT::State
            && new_node_spec(line, path, id).state == STATE::Open,
        line == "Done"@ ==> new_node_spec(line, path, id).kind == VARIANT::State
            && new_node_spec(line, path, id).state == STATE::Closed,
        line == "Dependencies"@ ==> new_node_spec(line, path, id).kind == VARIANT::Dependency
            && new_node_spec(line, path, id).state == STATE::Unknown,
        line != "Planned"@ && line != "Done"@ && line != "Dependencies"@ ==> new_node_spec(line, path, id).kind
            == VARIANT::Item && new_node_spec(line, path, id).state == STATE::Unknown,
        new_node_spec(line, path, id).children.len() == 0 && new_node_spec(line, path, id).day == 0
            && new_node_spec(line, path, id).property == PROPERTY::Unknown
            && new_node_spec(line, path, id).cost_text == "0"@,
        new_node_spec(line, path, id).name == line && new_node_spec(line, path, id).file == path
            && new_node_spec(line, path, id).id == id,
        new2_node_spec(line, path, kind, id).kind == kind && new2_node_spec(line, path, kind, id).state == STATE::Unknown
            && new2_node_spec(line, path, kind, id).children.len() == 0 && new2_node_spec(line, path, kind, id).day == 0
            && new2_node_spec(line, path, kind, id).name == line && new2_node_spec(line, path, kind, id).file == path
            && new2_node_spec(line, path, kind, id).id == id,
{
    reveal_strlit("Planned");
    reveal_strlit("Done");
    reveal_strlit("Dependencies");
    assert("Done"@.len() != "Planned"@.len());
    assert("Dependencies"@.len() != "Planned"@.len());
    assert("Dependencies"@.len() != "Done"@.len());
}

/// Lowering ASCII letters twice is lowering them once.
pub proof fn lemma_ascii_lower_twice(s: Seq<char>)
    ensures
        ascii_lower(ascii_lower(s)) == ascii_lower(s),
{
    assert forall|i: int| 0 <= i < s.len() implies #[trigger] ascii_lower(ascii_lower(s))[i] == ascii_lower(s)[i] by {
        let c = s[i];
        if 'A' <= c && c <= 'Z' {
            assert('a' <= ascii_lower_char(c) && ascii_lower_char(c) <= 'z');
        }
    }
    assert(ascii_lower(ascii_lower(s)) =~= ascii_lower(s));
}

/// Whether `s` spells `word` (given in lower case) with any of its ASCII
/// letters in upper case.
pub open spec fn spells_any_case(s: Seq<char>, word: Seq<char>) -> bool {
    s.len() == word.len() && forall|i: int|
        0 <= i < s.len() ==> (#[trigger] s[i] == word[i] || ('a' <= word[i] && word[i] <= 'z'
            && 'A' <= s[i] && s[i] <= 'Z' && (s[i] as u32) + 32 == (word[i] as u32)))
}

proof fn lemma_spells_any_case_lowers(s: Seq<char>, word: Seq<char>)
    requires
        spells_any_case(s, word),
        forall|i: int| 0 <= i < word.len() ==> !('A' <= #[trigger] word[i] && word[i] <= 'Z'),
    ensures
        ascii_lower(s) == word,
{
    assert forall|i: int| 0 <= i < s.len() implies #[trigger] ascii_lower(s)[i] == word[i] by {
        let c = s[i];
        if c != word[i] {
            assert('A' <= c && c <= 'Z' && (c as u32) + 32 == (word[i] as u32));
        }
    }
    assert(ascii_lower(s) =~= word);
}

/// The priority read from a word does not depend on the case of its ASCII
/// letters: "soll", "Soll" and "SOLL" all give `Soll`, "muss" in any case
/// gives `Muss`, and "nicetohave" or "nice to have" in any case give
/// `NiceToHave`.
pub proof fn law_property_ignores_case(s: Seq<char>)
    ensures
        property_of(s) == property_of(ascii_lower(s)),
        spells_any_case(s, "soll"@) ==> property_of(s) == PROPERTY::Soll,
        spells_any_case(s, "muss"@) ==> property_of(s) == PROPERTY::Muss,
        spells_any_case(s, "nicetohave"@) ==> property_of(s) == PROPERTY::NiceToHave,
        spells_any_case(s, "nice to have"@) ==> property_of(s) == PROPERTY::NiceToHave,
{
    lemma_ascii_lower_twice(s);
    reveal_strlit("soll");
    reveal_strlit("muss");
    reveal_strlit("nicetohave");
    reveal_strlit("nice to have");
    if spells_any_case(s, "soll"@) {
        lemma_spells_any_case_lowers(s, "soll"@);
    }
    if spells_any_case(s, "muss"@) {
        lemma_spells_any_case_lowers(s, "muss"@);
        assert("muss"@ != "soll"@) by { assert("muss"@[0] != "soll"@[0]); }
    }
    if spells_any_case(s, "nicetohave"@) {
        lemma_spells_any_case_lowers(s, "nicetohave"@);
    }
    if spells_any_case(s, "nice to have"@) {
        lemma_spells_any_case_lowers(s, "nice to have"@);
    }
}

/// Attaching a child puts the ids of the child's tree, in pre-order, after
/// those of the parent's.
pub proof fn law_add_child_ids(parent: NodeView, child: NodeView)
    ensures
        tree_ids(add_child_spec(parent, child)) == tree_ids(parent) + tree_ids(child),
{
    let after = add_child_spec(parent, child);
    let placed = after.children.last();
    assert(after.children.drop_last() =~= parent.children);
    assert(tree_ids(placed) == tree_ids(child));
    assert(forest_ids(after.children) == forest_ids(parent.children) + tree_ids(child));
    assert(tree_ids(after) =~= tree_ids(parent) + tree_ids(child));
}

} // verus!
