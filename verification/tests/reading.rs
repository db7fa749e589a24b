use workplan::files::{handleInput, parseDir, parseMDFile, DirEntry};
use workplan::node::{IdCounter, Node, PROPERTY, STATE, VARIANT};
use workplan::parse::parseMDLine;
use workplan::pattern::{check_patterns, find_item, MdError};

fn lines(text: &[&str]) -> Vec<String> {
    text.iter().map(|l| l.to_string()).collect()
}

fn sample() -> Vec<String> {
    lines(&[
        "# Haus",
        "Intro text",
        "## Bad",
        "### Planned",
        "- Fliesen legen 250 Euro",
        "- 3 Tage Streichen",
        "### Done",
        "- Elektrik",
        "# Garten",
        "- muss [Rasen](garten.md)",
    ])
}

fn preorder_ids(n: &Node, out: &mut Vec<u32>) {
    out.push(n.id);
    for c in &n.children {
        preorder_ids(c, out);
    }
}

fn names(n: &Node) -> Vec<String> {
    n.children.iter().map(|c| c.name.clone()).collect()
}

#[test]
fn patterns_are_usable() {
    assert_eq!(check_patterns(), Ok(()));
}

#[test]
fn items_and_their_patterns() {
    assert_eq!(find_item("# Haus"), Some((0, "Haus".to_string())));
    assert_eq!(find_item("## Bad"), Some((1, "Bad".to_string())));
    assert_eq!(find_item("### Planned"), Some((2, "Planned".to_string())));
    assert_eq!(find_item("### Done"), Some((3, "Done".to_string())));
    assert_eq!(find_item("### Dependencies"), Some((4, "Dependencies".to_string())));
    assert_eq!(find_item("- [Bad](bad.md)"), Some((5, "Bad".to_string())));
    assert_eq!(find_item("- Fliesen legen 250 Euro"), Some((6, "Fliesen legen".to_string())));
    assert_eq!(find_item("- 3 Tage Streichen"), Some((9, "Streichen".to_string())));
    assert_eq!(find_item("2. Rasen"), Some((12, "Rasen".to_string())));
    assert_eq!(find_item("- Elektrik"), Some((14, "Elektrik".to_string())));
    assert_eq!(find_item("Intro text"), None);
    assert_eq!(find_item(""), None);
}

#[test]
fn file_is_read_into_a_tree() {
    let mut ids = IdCounter::new();
    let mut root = Node::new2("root".to_string(), ".", VARIANT::Root, &mut ids);
    let text = sample();
    assert_eq!(parseMDFile(&mut root, "plan.md", Some(&text), &mut ids), Ok(()));
    assert_eq!(ids.last, 11);
    assert_eq!(names(&root), vec!["plan.md"]);
    let file = &root.children[0];
    assert_eq!((file.id, file.kind, file.file.as_str()), (2, VARIANT::Group, "plan.md"));
    assert_eq!(names(file), vec!["Haus", "Garten"]);
    let haus = &file.children[0];
    assert_eq!((haus.id, haus.kind, haus.state, haus.day), (3, VARIANT::Package, STATE::Working, 3));
    let bad = &haus.children[0];
    assert_eq!(names(bad), vec!["Planned", "Done"]);
    assert_eq!((bad.id, bad.kind, bad.state), (4, VARIANT::Package, STATE::Working));
    let planned = &bad.children[0];
    assert_eq!((planned.id, planned.kind, planned.state, planned.day), (5, VARIANT::State, STATE::Open, 3));
    assert_eq!(names(planned), vec!["Fliesen legen", "Streichen"]);
    let tiles = &planned.children[0];
    assert_eq!((tiles.id, tiles.kind, tiles.state, tiles.cost_text.as_str()), (6, VARIANT::Item, STATE::Open, "250"));
    let paint = &planned.children[1];
    assert_eq!((paint.id, paint.day, paint.cost_text.as_str()), (7, 3, "0"));
    let done = &bad.children[1];
    assert_eq!((done.id, done.state), (8, STATE::Closed));
    assert_eq!((done.children[0].name.as_str(), done.children[0].state), ("Elektrik", STATE::Closed));
    let garden = &file.children[1];
    assert_eq!((garden.id, garden.state), (10, STATE::Working));
    let lawn = &garden.children[0];
    assert_eq!((lawn.id, lawn.file.as_str(), lawn.property, lawn.state), (11, "garten.md", PROPERTY::Muss, STATE::Unknown));
    assert_eq!(file.state, STATE::Working);
    assert_eq!(root.state, STATE::Working);
    assert_eq!(root.day, 3);
    let mut ids_seen = Vec::new();
    preorder_ids(&root, &mut ids_seen);
    assert_eq!(ids_seen, (1..=11).collect::<Vec<u32>>());
}

#[test]
fn reading_stops_at_a_lower_level() {
    let mut ids = IdCounter::new();
    let mut root = Node::new2("Bad".to_string(), "plan.md", VARIANT::Package, &mut ids);
    let text = sample();
    let mut pos = 3;
    let rest = parseMDLine(&mut root, &text, &mut pos, 2, "plan.md", &mut ids);
    assert_eq!(rest, Ok("# Garten".to_string()));
    assert_eq!(pos, 9);
    assert_eq!(names(&root), vec!["Planned", "Done"]);
    let mut pos = 9;
    let mut other = Node::new2("x".to_string(), "plan.md", VARIANT::Group, &mut ids);
    assert_eq!(parseMDLine(&mut other, &text, &mut pos, 0, "plan.md", &mut ids), Ok(String::new()));
    assert_eq!(pos, 10);
    assert_eq!(names(&other), vec!["Rasen"]);
}

#[test]
fn files_that_are_not_read() {
    let mut ids = IdCounter::new();
    let mut root = Node::new2("root".to_string(), ".", VARIANT::Root, &mut ids);
    let text = sample();
    assert_eq!(parseMDFile(&mut root, "plan.txt", Some(&text), &mut ids), Err(MdError::NotMarkdown));
    assert_eq!(parseMDFile(&mut root, "plan.md", None, &mut ids), Err(MdError::Unreadable));
    assert_eq!(root.children.len(), 0);
    assert_eq!(ids.last, 1);
}

#[test]
fn days_overflow() {
    let mut ids = IdCounter::new();
    let mut root = Node::new2("root".to_string(), ".", VARIANT::Root, &mut ids);
    root.day = 4294967290;
    let text = lines(&["- 3 Tage a", "- 4 Tage b"]);
    assert_eq!(parseMDFile(&mut root, "x.md", Some(&text), &mut ids), Err(MdError::Overflow));
    let mut ids = IdCounter { last: 4294967295 };
    let mut root = Node { id: 7, name: String::new(), file: String::new(), kind: VARIANT::Root, state: STATE::Unknown,
        property: PROPERTY::Unknown, cost_text: "0".to_string(), day: 0, children: Vec::new() };
    assert_eq!(parseMDFile(&mut root, "x.md", Some(&text), &mut ids), Err(MdError::Overflow));
}

fn listing() -> Vec<DirEntry> {
    vec![
        DirEntry::File { path: "notes/a.md".to_string(), lines: Some(lines(&["# A", "- eins"])) },
        DirEntry::File { path: "notes/b.txt".to_string(), lines: None },
        DirEntry::Dir {
            path: "notes/sub".to_string(),
            name: "sub".to_string(),
            entries: vec![
                DirEntry::File { path: "notes/sub/c.md".to_string(), lines: Some(lines(&["- drei"])) },
                DirEntry::Failed,
                DirEntry::File { path: "notes/sub/d.md".to_string(), lines: Some(lines(&["- vier"])) },
            ],
        },
        DirEntry::File { path: "notes/e.md".to_string(), lines: None },
    ]
}

#[test]
fn directory_is_read_into_a_tree() {
    let mut ids = IdCounter::new();
    let mut root = Node::new2("root".to_string(), ".", VARIANT::Root, &mut ids);
    let entries = listing();
    assert_eq!(parseDir(&mut root, "notes", &entries, &mut ids), Ok(()));
    assert_eq!(names(&root), vec!["a.md", "sub"]);
    let sub = &root.children[1];
    assert_eq!((sub.id, sub.kind, sub.file.as_str()), (5, VARIANT::Group, "notes"));
    assert_eq!(names(sub), vec!["c.md"]);
    assert_eq!(names(&sub.children[0]), vec!["drei"]);
    assert_eq!(ids.last, 7);
    let mut ids_seen = Vec::new();
    preorder_ids(&root, &mut ids_seen);
    assert_eq!(ids_seen, vec![1, 2, 3, 4, 5, 6, 7]);
}

#[test]
fn handle_input_reports_and_refuses() {
    let mut ids = IdCounter::new();
    let mut root = Node::new2("root".to_string(), ".", VARIANT::Root, &mut ids);
    let top = DirEntry::Dir { path: "notes".to_string(), name: "notes".to_string(), entries: listing() };
    assert_eq!(handleInput(&mut root, &top, &mut ids), Ok(()));
    assert_eq!(names(&root), vec!["a.md", "sub"]);
    let failing = DirEntry::Dir {
        path: "notes".to_string(),
        name: "notes".to_string(),
        entries: vec![
            DirEntry::File { path: "notes/a.md".to_string(), lines: Some(lines(&["# A"])) },
            DirEntry::Failed,
        ],
    };
    let mut root2 = Node::new2("root".to_string(), ".", VARIANT::Root, &mut ids);
    assert_eq!(handleInput(&mut root2, &failing, &mut ids), Err(MdError::ListingFailed));
    assert_eq!(names(&root2), vec!["a.md"]);
    let unnamed = DirEntry::Dir {
        path: "notes".to_string(),
        name: "notes".to_string(),
        entries: vec![
            DirEntry::File { path: "notes/a.md".to_string(), lines: Some(lines(&["# A"])) },
            DirEntry::File { path: "notes/README".to_string(), lines: None },
        ],
    };
    let mut root3 = Node::new2("root".to_string(), ".", VARIANT::Root, &mut ids);
    let before = ids.last;
    assert_eq!(handleInput(&mut root3, &unnamed, &mut ids), Err(MdError::MissingExtension));
    assert_eq!(root3.children.len(), 0);
    assert_eq!(ids.last, before);
    let single = DirEntry::File { path: "plan.md".to_string(), lines: Some(sample()) };
    let mut root4 = Node::new2("root".to_string(), ".", VARIANT::Root, &mut ids);
    assert_eq!(handleInput(&mut root4, &single, &mut ids), Ok(()));
    assert_eq!(names(&root4.children[0]), vec!["Haus", "Garten"]);
    assert_eq!(handleInput(&mut root4, &DirEntry::Failed, &mut ids), Err(MdError::ListingFailed));
}
