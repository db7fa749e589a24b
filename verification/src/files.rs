//! Reading Markdown files and directory listings into the node tree: a
//! file becomes a group node filled with its items, a directory a group node
//! filled with what it holds.

use vstd::prelude::*;
use crate::node::{tree_ids, law_add_child_ids, Node, NodeView, VARIANT, IdCounter, new2_node_spec, add_child_spec, addChild};
use crate::pattern::{MdError, patterns_usable, patterns_compile, check_patterns};
use crate::pathname::{path_extension, path_file_name, extension, file_name};
use crate::parse::{id_range, law_parse_ids_consecutive, parse_run, lines_view, lemma_parse_run_grows, parseMDLine};
use crate::text::str_equal;

verus! {

/// Whether `path` names a Markdown file: its extension is `md`.
pub open spec fn is_md_path(path: Seq<char>) -> bool {
    path_extension(path) == Some("md"@)
}

/// Reading the Markdown file `path` with the lines `lines` into `root`, with
/// `next_id` as the next node id: a group node named after the file, filled
/// with the file's items, becomes the last child of `root`.
pub open spec fn md_file_run(root: NodeView, path: Seq<char>, lines: Seq<Seq<char>>, next_id: nat) -> (NodeView, nat) {
    let file_node = new2_node_spec(path_file_name(path).unwrap(), path, VARIANT::Group, next_id);
    let sub = parse_run(lines, 0, 0, path, file_node, next_id + 1);
    (add_child_spec(root, sub.0), sub.1)
}

/// Whether `(root, next_id)` stays within the 32-bit range of days and ids.
pub open spec fn in_range(res: (NodeView, nat)) -> bool {
    res.0.day <= u32::MAX && res.1 <= u32::MAX + 1
}

pub proof fn lemma_md_file_run_grows(root: NodeView, path: Seq<char>, lines: Seq<Seq<char>>, next_id: nat)
    ensures
        md_file_run(root, path, lines, next_id).0.day >= root.day,
        md_file_run(root, path, lines, next_id).1 >= next_id + 1,
{
    let file_node = new2_node_spec(path_file_name(path).unwrap(), path, VARIANT::Group, next_id);
    lemma_parse_run_grows(lines, 0, 0, path, file_node, next_id + 1);
}

/// Reads the Markdown file `path`, whose lines are `lines` where it could be
/// read, into `root`: a group node named after the file, filled with its
/// items (see `parseMDLine`), becomes the last child of `root`. A path whose
/// extension is not `md` fails with `NotMarkdown`, a file that could not be
/// read with `Unreadable`, both leaving everything unchanged; an id or a
/// node's days past the 32-bit range fail with `Overflow`.
#[allow(non_snake_case)]
pub fn parseMDFile(root: &mut Node, path: &str, lines: Option<&Vec<String>>, ids: &mut IdCounter) -> (r: Result<(), MdError>)
    requires
        patterns_usable(),
        path_extension(path@) is Some,
    ensures
        !is_md_path(path@) ==> r == Err::<(), MdError>(MdError::NotMarkdown) && final(root)@ == old(root)@
            && final(ids).last == old(ids).last,
        is_md_path(path@) && lines is None ==> r == Err::<(), MdError>(MdError::Unreadable)
            && final(root)@ == old(root)@ && final(ids).last == old(ids).last,
        is_md_path(path@) && lines is Some ==> ({
            let res = md_file_run(old(root)@, path@, lines_view(lines.unwrap()@), old(ids).next_id());
            &&& r == (if in_range(res) { Ok::<(), MdError>(()) } else { Err(MdError::Overflow) })
            &&& (r is Ok ==> final(root)@ == res.0 && final(ids).next_id() == res.1)
        }),
{
    let is_md = match extension(path) {
        Some(e) => str_equal(e.as_str(), "md"),
        None => false,
    };
    if !is_md {
        return Err(MdError::NotMarkdown);
    }
    let lines = match lines {
        Some(ls) => ls,
        None => {
            return Err(MdError::Unreadable);
        },
    };
    let ghost lv = lines_view(lines@);
    let ghost res = md_file_run(root@, path@, lv, ids.next_id());
    proof {
        lemma_md_file_run_grows(root@, path@, lv, ids.next_id());
    }
    if ids.last == u32::MAX {
        return Err(MdError::Overflow);
    }
    let node_name = match file_name(path) {
        Some(n) => n,
        None => {
            proof {
                assert(false);
            }
            String::new()
        },
    };
    let mut file_node = Node::new2(node_name, path, VARIANT::Group, ids);
    let ghost fnode = file_node@;
    let ghost sub = parse_run(lv, 0, 0, path@, fnode, ids.next_id());
    let mut pos: usize = 0;
    match parseMDLine(&mut file_node, lines, &mut pos, 0, path, ids) {
        Err(e) => {
            return Err(e);
        },
        Ok(_) => {},
    }
    if file_node.day > u32::MAX - root.day {
        return Err(MdError::Overflow);
    }
    addChild(root, file_node);
    Ok(())
}


/// One entry of a directory listing, as the listing gave it.
pub enum DirEntry {
    /// A subdirectory: its path, its name, and the listing of what it holds.
    Dir { path: String, name: String, entries: Vec<DirEntry> },
    /// A file: its path and, where it could be read, its lines.
    File { path: String, lines: Option<Vec<String>> },
    /// An entry that the listing reported as an error.
    Failed,
}

/// Reading the Markdown file `path` (see `md_file_run`), or nothing at all
/// where it is not a Markdown file or could not be read.
pub open spec fn file_run(root: NodeView, path: Seq<char>, lines: Option<Vec<String>>, next_id: nat) -> (NodeView, nat) {
    if is_md_path(path) && lines is Some {
        md_file_run(root, path, lines_view(lines.unwrap()@), next_id)
    } else {
        (root, next_id)
    }
}

/// Reading the entries of the directory `dir` from the `i`-th on into `root`,
/// with `next_id` as the next node id: the filled `root`, the next id after
/// it, and whether reading stopped at an entry that the listing reported as
/// an error. A subdirectory becomes a group node (whose file is `dir`) filled
/// with what it holds; a Markdown file is read as `md_file_run` says; other
/// files, and files that could not be read, add nothing.
pub open spec fn dir_run(entries: Seq<DirEntry>, i: int, dir: Seq<char>, root: NodeView, next_id: nat) -> (NodeView, nat, bool)
    decreases entries, entries.len() - i,
{
    if i < 0 || i >= entries.len() {
        (root, next_id, false)
    } else {
        match entries[i] {
            DirEntry::Failed => (root, next_id, true),
            DirEntry::Dir { path, name, entries: sub } => {
                let node = new2_node_spec(name@, dir, VARIANT::Group, next_id);
                let inner = dir_run(sub@, 0, path@, node, next_id + 1);
                dir_run(entries, i + 1, dir, add_child_spec(root, inner.0), inner.1)
            },
            DirEntry::File { path, lines } => {
                let after = file_run(root, path@, lines, next_id);
                dir_run(entries, i + 1, dir, after.0, after.1)
            },
        }
    }
}

/// Whether every file that reading the entries from the `i`-th on reaches
/// (up to an entry reported as an error, in this directory and below) has an
/// extension.
pub open spec fn files_named(entries: Seq<DirEntry>, i: int) -> bool
    decreases entries, entries.len() - i,
{
    if i < 0 || i >= entries.len() {
        true
    } else {
        match entries[i] {
            DirEntry::Failed => true,
            DirEntry::Dir { entries: sub, .. } => files_named(sub@, 0) && files_named(entries, i + 1),
            DirEntry::File { path, .. } => path_extension(path@) is Some && files_named(entries, i + 1),
        }
    }
}

pub proof fn lemma_dir_run_grows(entries: Seq<DirEntry>, i: int, dir: Seq<char>, root: NodeView, next_id: nat)
    ensures
        dir_run(entries, i, dir, root, next_id).0.day >= root.day,
        dir_run(entries, i, dir, root, next_id).1 >= next_id,
    decreases entries, entries.len() - i,
{
    if 0 <= i < entries.len() {
        match entries[i] {
            DirEntry::Failed => {},
            DirEntry::Dir { path, name, entries: sub } => {
                let node = new2_node_spec(name@, dir, VARIANT::Group, next_id);
                let inner = dir_run(sub@, 0, path@, node, next_id + 1);
                lemma_dir_run_grows(sub@, 0, path@, node, next_id + 1);
                lemma_dir_run_grows(entries, i + 1, dir, add_child_spec(root, inner.0), inner.1);
            },
            DirEntry::File { path, lines } => {
                let after = file_run(root, path@, lines, next_id);
                if is_md_path(path@) && lines is Some {
                    lemma_md_file_run_grows(root, path@, lines_view(lines.unwrap()@), next_id);
                }
                lemma_dir_run_grows(entries, i + 1, dir, after.0, after.1);
            },
        }
    }
}

/// Whether every file reached in `entries` has an extension (see `files_named`).
pub fn check_files_named(entries: &Vec<DirEntry>) -> (b: bool)
    ensures
        b == files_named(entries@, 0),
    decreases entries@,
{
    let mut i: usize = 0;
    while i < entries.len()
        invariant
            i <= entries.len(),
            files_named(entries@, 0) == files_named(entries@, i as int),
        decreases entries.len() - i,
    {
        match &entries[i] {
            DirEntry::Failed => {
                return true;
            },
            DirEntry::Dir { entries: sub, .. } => {
                if !check_files_named(sub) {
                    return false;
                }
            },
            DirEntry::File { path, .. } => {
                match extension(path.as_str()) {
                    None => {
                        return false;
                    },
                    Some(_) => {},
                }
            },
        }
        i = i + 1;
    }
    true
}

/// Reads the directory `dir`, whose listing is `entries`, into `root`, entry
/// by entry: a subdirectory becomes a group node (whose file is `dir`) filled
/// with what it holds, and a file is read as `parseMDFile` reads it. That a
/// file is not Markdown or cannot be read, or that the listing of a
/// subdirectory reports an error, is passed over. An entry of this listing
/// that is an error stops the reading with `ListingFailed`; an id or a node's
/// days past the 32-bit range stop it with `Overflow`.
#[allow(non_snake_case)]
pub fn parseDir(root: &mut Node, dir: &str, entries: &Vec<DirEntry>, ids: &mut IdCounter) -> (r: Result<(), MdError>)
    requires
        patterns_usable(),
        files_named(entries@, 0),
    ensures
        ({
            let res = dir_run(entries@, 0, dir@, old(root)@, old(ids).next_id());
            &&& (r == Err::<(), MdError>(MdError::Overflow) <==> !in_range((res.0, res.1)))
            &&& (in_range((res.0, res.1)) ==> {
                &&& final(root)@ == res.0
                &&& final(ids).next_id() == res.1
                &&& r == (if res.2 { Err(MdError::ListingFailed) } else { Ok::<(), MdError>(()) })
            })
        }),
    decreases entries@,
{
    let ghost target = dir_run(entries@, 0, dir@, root@, ids.next_id());
    let mut i: usize = 0;
    while i < entries.len()
        invariant
            patterns_usable(),
            i <= entries.len(),
            files_named(entries@, i as int),
            dir_run(entries@, i as int, dir@, root@, ids.next_id()) == target,
            target == dir_run(entries@, 0, dir@, old(root)@, old(ids).next_id()),
        decreases entries.len() - i,
    {
        proof {
            lemma_dir_run_grows(entries@, i as int, dir@, root@, ids.next_id());
        }
        match &entries[i] {
            DirEntry::Failed => {
                return Err(MdError::ListingFailed);
            },
            DirEntry::Dir { path, name, entries: sub } => {
                let ghost next_id = ids.next_id();
                let ghost node_spec = new2_node_spec(name@, dir@, VARIANT::Group, next_id);
                let ghost inner = dir_run(sub@, 0, path@, node_spec, next_id + 1);
                proof {
                    lemma_dir_run_grows(sub@, 0, path@, node_spec, next_id + 1);
                    lemma_dir_run_grows(entries@, i + 1, dir@, add_child_spec(root@, inner.0), inner.1);
                }
                if ids.last == u32::MAX {
                    return Err(MdError::Overflow);
                }
                let mut node = Node::new2(name.clone(), dir, VARIANT::Group, ids);
                match parseDir(&mut node, path.as_str(), sub, ids) {
                    Err(MdError::Overflow) => {
                        return Err(MdError::Overflow);
                    },
                    _ => {},
                }
                if node.day > u32::MAX - root.day {
                    return Err(MdError::Overflow);
                }
                addChild(root, node);
            },
            DirEntry::File { path, lines } => {
                let ghost after = file_run(root@, path@, *lines, ids.next_id());
                proof {
                    lemma_dir_run_grows(entries@, i + 1, dir@, after.0, after.1);
                    if is_md_path(path@) && lines is Some {
                        lemma_md_file_run_grows(root@, path@, lines_view(lines.unwrap()@), ids.next_id());
                    }
                }
                match parseMDFile(root, path.as_str(), lines.as_ref(), ids) {
                    Err(MdError::Overflow) => {
                        return Err(MdError::Overflow);
                    },
                    _ => {},
                }
            },
        }
        i = i + 1;
    }
    Ok(())
}


/// Whether every file that reading `input` reaches has an extension.
pub open spec fn input_named(input: DirEntry) -> bool {
    match input {
        DirEntry::Dir { entries, .. } => files_named(entries@, 0),
        DirEntry::File { path, .. } => path_extension(path@) is Some,
        DirEntry::Failed => true,
    }
}

/// What reading `input` into `root` with `next_id` as the next node id
/// gives: the filled `root`, the next id after it, and the outcome.
pub open spec fn input_result(root: NodeView, input: DirEntry, next_id: nat) -> (NodeView, nat, Result<(), MdError>) {
    if !patterns_compile() {
        (root, next_id, Err(MdError::InvalidPattern))
    } else if !patterns_usable() {
        (root, next_id, Err(MdError::EmptyLineItem))
    } else if !input_named(input) {
        (root, next_id, Err(MdError::MissingExtension))
    } else {
        match input {
            DirEntry::Failed => (root, next_id, Err(MdError::ListingFailed)),
            DirEntry::File { path, lines } => if !is_md_path(path@) {
                (root, next_id, Err(MdError::NotMarkdown))
            } else if lines is None {
                (root, next_id, Err(MdError::Unreadable))
            } else {
                let res = md_file_run(root, path@, lines_view(lines.unwrap()@), next_id);
                (res.0, res.1, if in_range(res) { Ok(()) } else { Err(MdError::Overflow) })
            },
            DirEntry::Dir { path, entries, .. } => {
                let res = dir_run(entries@, 0, path@, root, next_id);
                (
                    res.0,
                    res.1,
                    if !in_range((res.0, res.1)) {
                        Err(MdError::Overflow)
                    } else if res.2 {
                        Err(MdError::ListingFailed)
                    } else {
                        Ok(())
                    },
                )
            },
        }
    }
}

/// Reads `input`, a directory listing or a single file, into `root` (see
/// `parseDir` and `parseMDFile`). Where reading would reach a file without
/// an extension it fails with `MissingExtension` and changes nothing; so it
/// does where a line pattern cannot be used (`InvalidPattern`,
/// `EmptyLineItem`). On every other outcome but `Overflow`, `root` and `ids`
/// are as `input_result` says.
#[allow(non_snake_case)]
pub fn handleInput(root: &mut Node, input: &DirEntry, ids: &mut IdCounter) -> (r: Result<(), MdError>)
    ensures
        r == input_result(old(root)@, *input, old(ids).next_id()).2,
        r != Err::<(), MdError>(MdError::Overflow) ==> final(root)@ == input_result(old(root)@, *input, old(ids).next_id()).0
            && final(ids).next_id() == input_result(old(root)@, *input, old(ids).next_id()).1,
{
    match check_patterns() {
        Err(e) => {
            return Err(e);
        },
        Ok(()) => {},
    }
    match input {
        DirEntry::Failed => Err(MdError::ListingFailed),
        DirEntry::File { path, lines } => {
            match extension(path.as_str()) {
                None => {
                    return Err(MdError::MissingExtension);
                },
                Some(_) => {},
            }
            let lines_ref = lines.as_ref();
            let r = parseMDFile(root, path.as_str(), lines_ref, ids);
            assert(lines_ref is Some ==> lines_ref.unwrap()@ == lines.unwrap()@);
            r
        },
        DirEntry::Dir { path, entries, .. } => {
            if !check_files_named(entries) {
                return Err(MdError::MissingExtension);
            }
            parseDir(root, path.as_str(), entries, ids)
        },
    }
}


/// Reading a Markdown file hands out one fresh id per node it adds, in
/// pre-order (see `law_parse_ids_consecutive`).
pub proof fn law_md_file_ids_consecutive(root: NodeView, path: Seq<char>, lines: Seq<Seq<char>>, next_id: nat)
    ensures
        md_file_run(root, path, lines, next_id).1 >= next_id,
        tree_ids(md_file_run(root, path, lines, next_id).0)
            == tree_ids(root) + id_range(next_id, md_file_run(root, path, lines, next_id).1),
{
    let file_node = new2_node_spec(path_file_name(path).unwrap(), path, VARIANT::Group, next_id);
    let sub = parse_run(lines, 0, 0, path, file_node, next_id + 1);
    law_parse_ids_consecutive(lines, 0, 0, path, file_node, next_id + 1);
    assert(tree_ids(file_node) =~= seq![next_id]);
    law_add_child_ids(root, sub.0);
    assert(tree_ids(add_child_spec(root, sub.0)) =~= tree_ids(root) + id_range(next_id, sub.1));
}

/// Reading a directory hands out one fresh id per node it adds: the nodes
/// added to `root`, taken in pre-order, carry consecutive ids from `next_id`.
pub proof fn law_dir_ids_consecutive(entries: Seq<DirEntry>, i: int, dir: Seq<char>, root: NodeView, next_id: nat)
    ensures
        dir_run(entries, i, dir, root, next_id).1 >= next_id,
        tree_ids(dir_run(entries, i, dir, root, next_id).0)
            == tree_ids(root) + id_range(next_id, dir_run(entries, i, dir, root, next_id).1),
    decreases entries, entries.len() - i,
{
    let res = dir_run(entries, i, dir, root, next_id);
    if i < 0 || i >= entries.len() {
        assert(tree_ids(res.0) =~= tree_ids(root) + id_range(next_id, res.1));
    } else {
        match entries[i] {
            DirEntry::Failed => {
                assert(tree_ids(res.0) =~= tree_ids(root) + id_range(next_id, res.1));
            },
            DirEntry::Dir { path, name, entries: sub } => {
                let node = new2_node_spec(name@, dir, VARIANT::Group, next_id);
                let inner = dir_run(sub@, 0, path@, node, next_id + 1);
                law_dir_ids_consecutive(sub@, 0, path@, node, next_id + 1);
                assert(tree_ids(node) =~= seq![next_id]);
                assert(tree_ids(inner.0) =~= id_range(next_id, inner.1));
                law_add_child_ids(root, inner.0);
                law_dir_ids_consecutive(entries, i + 1, dir, add_child_spec(root, inner.0), inner.1);
                assert(tree_ids(res.0) =~= tree_ids(root) + id_range(next_id, res.1));
            },
            DirEntry::File { path, lines } => {
                let after = file_run(root, path@, lines, next_id);
                if is_md_path(path@) && lines is Some {
                    law_md_file_ids_consecutive(root, path@, lines_view(lines.unwrap()@), next_id);
                } else {
                    assert(tree_ids(root) =~= tree_ids(root) + id_range(next_id, next_id));
                }
                law_dir_ids_consecutive(entries, i + 1, dir, after.0, after.1);
                assert(tree_ids(res.0) =~= tree_ids(root) + id_range(next_id, res.1));
            },
        }
    }
}


/// Reading a Markdown file adds one child to `root`, after the ones it had:
/// a group node named after the file, whose file is the path read, with
/// the next id; a file that is not Markdown, or could not be read, adds
/// nothing.
pub proof fn law_md_file_node(root: NodeView, path: Seq<char>, lines: Option<Vec<String>>, next_id: nat)
    ensures
        is_md_path(path) && lines is Some ==> ({
            let after = file_run(root, path, lines, next_id).0;
            &&& after.children.len() == root.children.len() + 1
            &&& after.children.subrange(0, root.children.len() as int) == root.children
            &&& after.children.last().kind == VARIANT::Group
            &&& after.children.last().name == path_file_name(path).unwrap()
            &&& after.children.last().file == path
            &&& after.children.last().id == next_id
        }),
        !(is_md_path(path) && lines is Some) ==> file_run(root, path, lines, next_id) == (root, next_id),
{
    if is_md_path(path) && lines is Some {
        let lv = lines_view(lines.unwrap()@);
        let file_node = new2_node_spec(path_file_name(path).unwrap(), path, VARIANT::Group, next_id);
        crate::parse::lemma_parse_run_keeps(lv, 0, 0, path, file_node, next_id + 1);
        let after = file_run(root, path, lines, next_id).0;
        assert(after.children.subrange(0, root.children.len() as int) =~= root.children);
    }
}

/// Reading entries keeps what `root` already was: its name, file and kind,
/// and the children it had, in their places.
pub proof fn lemma_dir_run_keeps(entries: Seq<DirEntry>, i: int, dir: Seq<char>, root: NodeView, next_id: nat)
    ensures
        dir_run(entries, i, dir, root, next_id).0.name == root.name,
        dir_run(entries, i, dir, root, next_id).0.file == root.file,
        dir_run(entries, i, dir, root, next_id).0.kind == root.kind,
        dir_run(entries, i, dir, root, next_id).0.children.len() >= root.children.len(),
        forall|m: int| 0 <= m < root.children.len()
            ==> #[trigger] dir_run(entries, i, dir, root, next_id).0.children[m] == root.children[m],
    decreases entries, entries.len() - i,
{
    if 0 <= i < entries.len() {
        match entries[i] {
            DirEntry::Failed => {},
            DirEntry::Dir { path, name, entries: sub } => {
                let node = new2_node_spec(name@, dir, VARIANT::Group, next_id);
                let inner = dir_run(sub@, 0, path@, node, next_id + 1);
                let joined = add_child_spec(root, inner.0);
                lemma_dir_run_keeps(entries, i + 1, dir, joined, inner.1);
                assert forall|m: int| 0 <= m < root.children.len() implies joined.children[m] == root.children[m] by {}
            },
            DirEntry::File { path, lines } => {
                let after = file_run(root, path@, lines, next_id);
                lemma_dir_run_keeps(entries, i + 1, dir, after.0, after.1);
            },
        }
    }
}

/// Whether, in `kids` from position `k` on, the nodes that reading the
/// entries from the `i`-th on adds for subdirectories are group nodes named
/// after the subdirectory, whose file is `dir`, the directory that lists
/// them, and so on at every depth below them.
pub open spec fn dirs_filed(entries: Seq<DirEntry>, i: int, dir: Seq<char>, kids: Seq<NodeView>, k: int) -> bool
    decreases entries, entries.len() - i,
{
    if i < 0 || i >= entries.len() {
        true
    } else {
        match entries[i] {
            DirEntry::Failed => true,
            DirEntry::Dir { path, name, entries: sub } => {
                &&& 0 <= k < kids.len()
                &&& kids[k].file == dir
                &&& kids[k].name == name@
                &&& kids[k].kind == VARIANT::Group
                &&& dirs_filed(sub@, 0, path@, kids[k].children, 0)
                &&& dirs_filed(entries, i + 1, dir, kids, k + 1)
            },
            DirEntry::File { path, lines } => dirs_filed(
                entries,
                i + 1,
                dir,
                kids,
                if is_md_path(path@) && lines is Some { k + 1 } else { k },
            ),
        }
    }
}

/// In the tree read from a listing, the group node of every subdirectory,
/// at any depth, has as its file the path of the directory whose listing
/// holds it (`dir` at the top, the path of the enclosing subdirectory below).
pub proof fn law_dir_nodes_filed(entries: Seq<DirEntry>, i: int, dir: Seq<char>, root: NodeView, next_id: nat)
    ensures
        dirs_filed(entries, i, dir, dir_run(entries, i, dir, root, next_id).0.children, root.children.len() as int),
    decreases entries, entries.len() - i,
{
    if 0 <= i < entries.len() {
        match entries[i] {
            DirEntry::Failed => {},
            DirEntry::Dir { path, name, entries: sub } => {
                let node = new2_node_spec(name@, dir, VARIANT::Group, next_id);
                let inner = dir_run(sub@, 0, path@, node, next_id + 1);
                law_dir_nodes_filed(sub@, 0, path@, node, next_id + 1);
                lemma_dir_run_keeps(sub@, 0, path@, node, next_id + 1);
                let joined = add_child_spec(root, inner.0);
                law_dir_nodes_filed(entries, i + 1, dir, joined, inner.1);
                lemma_dir_run_keeps(entries, i + 1, dir, joined, inner.1);
                let res = dir_run(entries, i, dir, root, next_id);
                let k = root.children.len() as int;
                assert(res.0.children[k] == joined.children[k]);
                assert(joined.children[k].children == inner.0.children);
            },
            DirEntry::File { path, lines } => {
                let after = file_run(root, path@, lines, next_id);
                law_dir_nodes_filed(entries, i + 1, dir, after.0, after.1);
            },
        }
    }
}

} // verus!
