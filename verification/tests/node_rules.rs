use workplan::node::{addChild, setProperty, IdCounter, Node, PROPERTY, STATE, VARIANT};
use workplan::text::{lower_equal, parse_u32, str_equal};

fn node(name: &str, ids: &mut IdCounter) -> Node {
    Node::new(name.to_string(), "plan.md", ids)
}

#[test]
fn new_marks_state_and_dependency_nodes() {
    let mut ids = IdCounter::new();
    let planned = node("Planned", &mut ids);
    assert_eq!(planned.kind, VARIANT::State);
    assert_eq!(planned.state, STATE::Open);
    let done = node("Done", &mut ids);
    assert_eq!(done.kind, VARIANT::State);
    assert_eq!(done.state, STATE::Closed);
    let deps = node("Dependencies", &mut ids);
    assert_eq!(deps.kind, VARIANT::Dependency);
    assert_eq!(deps.state, STATE::Unknown);
    let item = node("test", &mut ids);
    assert_eq!(item.name, "test");
    assert_eq!(item.file, "plan.md");
    assert_eq!(item.kind, VARIANT::Item);
    assert_eq!(item.state, STATE::Unknown);
    assert_eq!(item.property, PROPERTY::Unknown);
    assert_eq!(item.cost_text, "0");
    assert_eq!(item.day, 0);
    assert_eq!(item.children.len(), 0);
}

#[test]
fn ids_count_up_from_one() {
    let mut ids = IdCounter::new();
    let a = node("a", &mut ids);
    let b = Node::new2("b".to_string(), ".", VARIANT::Root, &mut ids);
    let c = node("c", &mut ids);
    assert_eq!((a.id, b.id, c.id), (1, 2, 3));
    assert_eq!(ids.last, 3);
    assert_eq!(b.kind, VARIANT::Root);
    assert_eq!(b.state, STATE::Unknown);
}

#[test]
fn set_property_ignores_ascii_case() {
    let mut ids = IdCounter::new();
    let mut n = node("x", &mut ids);
    setProperty(&mut n, "MUSS");
    assert_eq!(n.property, PROPERTY::Muss);
    setProperty(&mut n, "Soll");
    assert_eq!(n.property, PROPERTY::Soll);
    setProperty(&mut n, "NiceToHave");
    assert_eq!(n.property, PROPERTY::NiceToHave);
    setProperty(&mut n, "Nice To Have");
    assert_eq!(n.property, PROPERTY::NiceToHave);
    setProperty(&mut n, "Unknown");
    assert_eq!(n.property, PROPERTY::Unknown);
    setProperty(&mut n, "muss ");
    assert_eq!(n.property, PROPERTY::Unknown);
}

#[test]
fn unknown_parent_takes_child_state() {
    let mut ids = IdCounter::new();
    let mut parent = Node::new2("p".to_string(), ".", VARIANT::Group, &mut ids);
    let child = node("Done", &mut ids);
    addChild(&mut parent, child);
    assert_eq!(parent.state, STATE::Closed);
    assert_eq!(parent.children.len(), 1);
    assert_eq!(parent.children[0].state, STATE::Closed);
}

#[test]
fn open_and_closed_make_working() {
    let mut ids = IdCounter::new();
    let mut parent = node("Planned", &mut ids);
    addChild(&mut parent, node("Done", &mut ids));
    assert_eq!(parent.state, STATE::Working);
    let mut closed = node("Done", &mut ids);
    addChild(&mut closed, node("Planned", &mut ids));
    assert_eq!(closed.state, STATE::Working);
}

#[test]
fn unknown_child_takes_parent_state() {
    let mut ids = IdCounter::new();
    let mut parent = node("Planned", &mut ids);
    addChild(&mut parent, node("item", &mut ids));
    assert_eq!(parent.state, STATE::Open);
    assert_eq!(parent.children[0].state, STATE::Open);
    let mut working = node("Planned", &mut ids);
    working.state = STATE::Working;
    addChild(&mut working, node("Done", &mut ids));
    assert_eq!(working.state, STATE::Working);
    assert_eq!(working.children[0].state, STATE::Closed);
}

#[test]
fn days_add_up() {
    let mut ids = IdCounter::new();
    let mut parent = node("p", &mut ids);
    parent.day = 2;
    let mut a = node("a", &mut ids);
    a.day = 3;
    let mut b = node("b", &mut ids);
    b.day = 5;
    addChild(&mut parent, a);
    addChild(&mut parent, b);
    assert_eq!(parent.day, 10);
    assert_eq!(parent.children[0].name, "a");
    assert_eq!(parent.children[1].name, "b");
}

#[test]
fn text_helpers() {
    assert!(str_equal("Done", "Done"));
    assert!(!str_equal("Done", "done"));
    assert!(lower_equal("DoNe", "done"));
    assert!(!lower_equal("Dön", "dön "));
    assert_eq!(parse_u32("12"), Some(12));
    assert_eq!(parse_u32("+7"), Some(7));
    assert_eq!(parse_u32("007"), Some(7));
    assert_eq!(parse_u32("4294967295"), Some(4294967295));
    assert_eq!(parse_u32("4294967296"), None);
    assert_eq!(parse_u32(""), None);
    assert_eq!(parse_u32("+"), None);
    assert_eq!(parse_u32("-1"), None);
    assert_eq!(parse_u32("1.5"), None);
}

#[test]
fn attached_subtree_ids_follow_the_parent() {
    let mut ids = IdCounter::new();
    let mut parent = node("p", &mut ids);
    addChild(&mut parent, node("a", &mut ids));
    let mut sub = node("s", &mut ids);
    addChild(&mut sub, node("t", &mut ids));
    addChild(&mut parent, sub);
    let mut seen = Vec::new();
    let mut stack = vec![&parent];
    while let Some(n) = stack.pop() {
        seen.push(n.id);
        for c in n.children.iter().rev() {
            stack.push(c);
        }
    }
    assert_eq!(seen, vec![1, 2, 3, 4]);
}

#[test]
fn new() {
    let mut ids = IdCounter::new();
    let test_node = Node::new("test".to_string(), ".", &mut ids);
    assert_eq!(test_node.name, "test");
    assert_eq!(test_node.cost_text.parse::<f32>().unwrap(), 0.0);
    assert_eq!(test_node.children.len(), 0);
}
