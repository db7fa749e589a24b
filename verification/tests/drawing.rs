use workplan::dot::{generateDot, getDotColor, getDotFileName, getDotShape, getDotStyle, try_dot_file_name, DotItem};
use workplan::node::{addChild, IdCounter, Node, PROPERTY, STATE, VARIANT};
use workplan::output::{output_file, output_path, output_target, remove_newlines};

#[test]
fn shapes_colors_styles() {
    assert_eq!(getDotShape(&VARIANT::Root), "house");
    assert_eq!(getDotShape(&VARIANT::Group), "folder");
    assert_eq!(getDotShape(&VARIANT::Package), "hexagon");
    assert_eq!(getDotShape(&VARIANT::Item), "ellipse");
    assert_eq!(getDotShape(&VARIANT::State), "rect");
    assert_eq!(getDotShape(&VARIANT::Dependency), "rect");
    assert_eq!(getDotColor(&STATE::Open), "lightBlue");
    assert_eq!(getDotColor(&STATE::Planed), "blue");
    assert_eq!(getDotColor(&STATE::Working), "yellow");
    assert_eq!(getDotColor(&STATE::Closed), "green");
    assert_eq!(getDotColor(&STATE::Unknown), "grey");
    assert_eq!(getDotStyle(&PROPERTY::Muss), "bold");
    assert_eq!(getDotStyle(&PROPERTY::Soll), "solid");
    assert_eq!(getDotStyle(&PROPERTY::NiceToHave), "dashed");
    assert_eq!(getDotStyle(&PROPERTY::Unknown), "dotted");
}

#[test]
fn dot_file_names() {
    assert_eq!(getDotFileName(&"plan.md".to_string()), "md");
    assert_eq!(getDotFileName(&"../notes/plan.md".to_string()), "md");
    assert_eq!(getDotFileName(&".".to_string()), "./");
    assert_eq!(getDotFileName(&"notes".to_string()), "notes/");
    assert_eq!(getDotFileName(&"../../notes".to_string()), "notes/");
    assert_eq!(try_dot_file_name(&"../a/b".to_string()), Some("a/b/".to_string()));
    assert_eq!(try_dot_file_name(&"plan.txt".to_string()), None);
    assert_eq!(try_dot_file_name(&"../plan.txt".to_string()), None);
}

fn named(name: &str, file: &str, ids: &mut IdCounter) -> Node {
    Node::new(name.to_string(), file, ids)
}

#[test]
fn drawing_skips_hidden_children() {
    let mut ids = IdCounter::new();
    let mut root = Node::new2("root".to_string(), ".", VARIANT::Root, &mut ids);
    let mut pkg = Node::new2("pkg".to_string(), "a.md", VARIANT::Package, &mut ids);
    let planned = named("Planned", "a.md", &mut ids);
    let done = named("Done", "a.md", &mut ids);
    addChild(&mut pkg, planned);
    addChild(&mut pkg, done);
    assert_eq!(pkg.state, STATE::Working);
    let hidden = named("loose item", "a.md", &mut ids);
    addChild(&mut root, hidden);
    addChild(&mut root, pkg);
    assert_eq!(root.children[0].state, STATE::Unknown);
    let mut out = Vec::new();
    assert!(generateDot(&root, &mut out));
    let mut seen = Vec::new();
    for item in &out {
        match item {
            DotItem::Node { id, url, shape, .. } => seen.push(format!("n{} {} {}", id, url, shape)),
            DotItem::Edge { from, to } => seen.push(format!("e{}-{}", from, to)),
        }
    }
    assert_eq!(seen, vec!["n1 ./ house", "e1-2", "n2 md hexagon", "e2-3", "n3 md rect"]);
    for (i, item) in out.iter().enumerate() {
        if let DotItem::Edge { to, .. } = item {
            match &out[i + 1] {
                DotItem::Node { id, .. } => assert_eq!(id, to),
                _ => panic!("an edge must be followed by its node"),
            }
        }
    }
}

#[test]
fn drawing_stops_at_unsupported_file() {
    let mut ids = IdCounter::new();
    let mut root = Node::new2("root".to_string(), ".", VARIANT::Root, &mut ids);
    let mut a = named("Planned", "a.md", &mut ids);
    a.property = PROPERTY::Muss;
    let b = named("Planned", "b.txt", &mut ids);
    let c = named("Planned", "c.md", &mut ids);
    addChild(&mut root, a);
    addChild(&mut root, b);
    addChild(&mut root, c);
    let mut out = Vec::new();
    assert!(!generateDot(&root, &mut out));
    assert_eq!(out.len(), 4);
    match &out[2] {
        DotItem::Node { style, color, day, name, .. } => {
            assert_eq!((*style, *color, *day, name.as_str()), ("bold", "lightBlue", 0, "Planned"))
        }
        _ => panic!("expected a node"),
    }
    match &out[3] {
        DotItem::Edge { from, to } => assert_eq!((*from, *to), (1, 3)),
        _ => panic!("expected an edge"),
    }
}

#[test]
fn output_names() {
    assert_eq!(output_path("temp"), "./temp");
    assert_eq!(output_path("/tmp/x"), "/tmp/x");
    assert_eq!(output_target("./out", true), Some(("./out".to_string(), "output".to_string())));
    assert_eq!(output_target("./out/plan.md", false), Some(("./out".to_string(), "plan".to_string())));
    assert_eq!(output_target("./out/plan.svg", false), Some(("./out".to_string(), "plan.svg".to_string())));
    assert_eq!(output_target("./temp", false), None);
    assert_eq!(output_file("./out", "plan", "dot"), "./out/plan.dot");
    assert_eq!(remove_newlines("a\nb\n\nc"), "abc");
    assert_eq!(remove_newlines(""), "");
}
