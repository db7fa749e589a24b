//! Reading Markdown notes into the node tree. Each line that a pattern makes
//! an item becomes a node; an item belongs to the nearest item above it of a
//! lower level (or to the node being filled), and later items of the same or
//! a lower level close it.

use vstd::prelude::*;
use crate::node::{tree_ids, law_add_child_ids, Node, NodeView, VARIANT, IdCounter, new_node_spec, new2_node_spec, property_of, add_child_spec, addChild, setProperty};
use crate::pattern::{pattern_at, MdError, captured, item_pattern, item_level, md_level, patterns_usable, patterns_compile, find_item, group_text};
use crate::text::{parse_u32, parse_u32_spec};

verus! {

/// The text of each line.
pub open spec fn lines_view(lines: Seq<String>) -> Seq<Seq<char>> {
    lines.map_values(|l: String| l@)
}

/// Where the items below level `level` that start at line `k` end: the first
/// line from `k` on that is an item of level `level` or lower, or the end.
pub open spec fn block_end(lines: Seq<Seq<char>>, k: int, level: u16) -> int
    decreases lines.len() - k,
{
    if k < 0 || k >= lines.len() {
        lines.len() as int
    } else {
        match item_level(lines[k]) {
            Some(l) => if l <= level {
                k
            } else {
                block_end(lines, k + 1, level)
            },
            None => block_end(lines, k + 1, level),
        }
    }
}

/// The text that group `group` of pattern `i` takes in `line`, or `default`.
pub open spec fn captured_or(line: Seq<char>, i: int, group: Seq<char>, default: Seq<char>) -> Seq<char> {
    match captured(line, i, group) {
        Some(s) => s,
        None => default,
    }
}

/// The node that the item `line` of the file `fp` becomes, under the id `id`
/// and before its own items are attached: a `#` or `##` heading makes a
/// package, anything else a node as `Node::new` makes it; the `file` group,
/// where present, names its file; `cost`, `day` and `dependency` set its cost
/// text, its days and its priority.
pub open spec fn item_node(line: Seq<char>, fp: Seq<char>, id: nat) -> NodeView {
    let i = item_pattern(line).unwrap();
    let level = md_level(i);
    let name = captured(line, i, "name"@).unwrap();
    let file = captured_or(line, i, "file"@, fp);
    let base = if level > 2 {
        new_node_spec(name, file, id)
    } else {
        new2_node_spec(name, file, VARIANT::Package, id)
    };
    let day = match captured(line, i, "day"@) {
        Some(d) => match parse_u32_spec(d) {
            Some(v) => v as nat,
            None => 0,
        },
        None => 0,
    };
    NodeView {
        cost_text: captured_or(line, i, "cost"@, "0"@),
        day: day,
        property: property_of(captured_or(line, i, "dependency"@, "Unknown"@)),
        ..base
    }
}

pub proof fn lemma_block_end_bounds(lines: Seq<Seq<char>>, k: int, level: u16)
    requires
        0 <= k <= lines.len(),
    ensures
        k <= block_end(lines, k, level) <= lines.len(),
    decreases lines.len() - k,
{
    if k < lines.len() {
        lemma_block_end_bounds(lines, k + 1, level);
    }
}

/// Reading `lines` from line `cur` into `root`, for items below level
/// `level`, with `next_id` as the next node id: the filled `root` and the
/// next id after it. Lines that are no item are passed over; reading stops
/// at the end or at an item of level `level` or lower.
pub open spec fn parse_run(
    lines: Seq<Seq<char>>,
    cur: int,
    level: u16,
    fp: Seq<char>,
    root: NodeView,
    next_id: nat,
) -> (NodeView, nat)
    decreases lines.len() - cur,
{
    if cur < 0 || cur >= lines.len() {
        (root, next_id)
    } else {
        match item_level(lines[cur]) {
            None => parse_run(lines, cur + 1, level, fp, root, next_id),
            Some(l) => if l <= level {
                (root, next_id)
            } else {
                let sub = parse_run(lines, cur + 1, l, fp, item_node(lines[cur], fp, next_id), next_id + 1);
                let e = block_end(lines, cur + 1, l);
                proof {
                    lemma_block_end_bounds(lines, cur + 1, l);
                }
                parse_run(lines, e, level, fp, add_child_spec(root, sub.0), sub.1)
            },
        }
    }
}


pub proof fn lemma_block_end_nested(lines: Seq<Seq<char>>, k: int, inner: u16, outer: u16)
    requires
        0 <= k <= lines.len(),
        outer < inner,
    ensures
        block_end(lines, k, outer) == block_end(lines, block_end(lines, k, inner), outer),
    decreases lines.len() - k,
{
    if k < lines.len() {
        match item_level(lines[k]) {
            Some(l) => {
                if l > inner {
                    lemma_block_end_nested(lines, k + 1, inner, outer);
                }
            },
            None => {
                lemma_block_end_nested(lines, k + 1, inner, outer);
            },
        }
    }
}

pub proof fn lemma_parse_run_grows(
    lines: Seq<Seq<char>>,
    cur: int,
    level: u16,
    fp: Seq<char>,
    root: NodeView,
    next_id: nat,
)
    ensures
        parse_run(lines, cur, level, fp, root, next_id).0.day >= root.day,
        parse_run(lines, cur, level, fp, root, next_id).1 >= next_id,
    decreases lines.len() - cur,
{
    if 0 <= cur < lines.len() {
        match item_level(lines[cur]) {
            None => {
                lemma_parse_run_grows(lines, cur + 1, level, fp, root, next_id);
            },
            Some(l) => {
                if l > level {
                    let child = item_node(lines[cur], fp, next_id);
                    let sub = parse_run(lines, cur + 1, l, fp, child, next_id + 1);
                    lemma_parse_run_grows(lines, cur + 1, l, fp, child, next_id + 1);
                    lemma_block_end_bounds(lines, cur + 1, l);
                    let e = block_end(lines, cur + 1, l);
                    lemma_parse_run_grows(lines, e, level, fp, add_child_spec(root, sub.0), sub.1);
                }
            },
        }
    }
}

/// The node that the item `line` of the file `file_path` becomes (see
/// `item_node`), with the next id of `ids`.
fn make_item_node(line: &String, i: usize, name: String, file_path: &str, ids: &mut IdCounter) -> (r: Node)
    requires
        patterns_compile(),
        i < 15,
        item_pattern(line@) == Some(i as int),
        captured(line@, i as int, "name"@) == Some(name@),
        old(ids).last < u32::MAX,
    ensures
        final(ids).last == old(ids).last + 1,
        r@ == item_node(line@, file_path@, final(ids).last as nat),
{
    let (_, level) = pattern_at(i);
    let file = match group_text(i, line.as_str(), "file") {
        Some(f) => f,
        None => file_path.to_owned(),
    };
    let mut node = if level > 2 {
        Node::new(name, file.as_str(), ids)
    } else {
        Node::new2(name, file.as_str(), VARIANT::Package, ids)
    };
    node.cost_text = match group_text(i, line.as_str(), "cost") {
        Some(c) => c,
        None => "0".to_owned(),
    };
    node.day = match group_text(i, line.as_str(), "day") {
        Some(d) => match parse_u32(d.as_str()) {
            Some(v) => v,
            None => 0,
        },
        None => 0,
    };
    let dependency = match group_text(i, line.as_str(), "dependency") {
        Some(d) => d,
        None => "Unknown".to_owned(),
    };
    setProperty(&mut node, dependency.as_str());
    node
}

/// Reads the lines of `lines` from `*pos` into `root`, for items below level
/// `parent_level` of the file `file_path`, numbering new nodes with `ids`.
/// Each item of a higher level becomes a child of `root`, filled in turn with
/// the items below its own level; lines that are no item are passed over.
/// Reading stops at the first item of level `parent_level` or lower, whose
/// line is returned (and consumed), or at the end, where the empty line is
/// returned. It fails with `Overflow`, and only then, where an id or the
/// days of a node would go past the 32-bit range.
#[allow(non_snake_case)]
pub fn parseMDLine(
    root: &mut Node,
    lines: &Vec<String>,
    pos: &mut usize,
    parent_level: u16,
    file_path: &str,
    ids: &mut IdCounter,
) -> (r: Result<String, MdError>)
    requires
        patterns_usable(),
        *old(pos) <= lines.len(),
    ensures
        ({
            let res = parse_run(
                lines_view(lines@),
                *old(pos) as int,
                parent_level,
                file_path@,
                old(root)@,
                old(ids).next_id(),
            );
            let e = block_end(lines_view(lines@), *old(pos) as int, parent_level);
            &&& (r is Ok <==> (res.0.day <= u32::MAX && res.1 <= u32::MAX + 1))
            &&& (r is Err ==> r == Err::<String, MdError>(MdError::Overflow))
            &&& (r matches Ok(line) ==> {
                &&& final(root)@ == res.0
                &&& final(ids).next_id() == res.1
                &&& if e < lines.len() {
                    line@ == lines_view(lines@)[e] && *final(pos) == e + 1
                } else {
                    line@ == Seq::<char>::empty() && *final(pos) == lines.len()
                }
            })
        }),
    decreases lines.len() - *old(pos),
{
    let ghost lv = lines_view(lines@);
    let ghost p0 = *pos as int;
    let ghost fp = file_path@;
    let ghost target = parse_run(lv, p0, parent_level, fp, root@, ids.next_id());
    let ghost end0 = block_end(lv, p0, parent_level);
    let mut line: String;
    let mut done: bool;
    if *pos < lines.len() {
        line = lines[*pos].clone();
        *pos = *pos + 1;
        done = false;
    } else {
        line = String::new();
        done = true;
    }
    let ghost mut cur: int = if done { lv.len() as int } else { *pos - 1 };
    while !done
        invariant
            patterns_usable(),
            lv == lines_view(lines@),
            fp == file_path@,
            lv.len() == lines.len(),
            *pos <= lines.len(),
            0 <= p0 <= cur <= lines.len(),
            !done && cur < lines.len() ==> line@ == lv[cur] && *pos == cur + 1,
            !done && cur == lines.len() ==> line@ == Seq::<char>::empty() && *pos == lines.len(),
            done ==> cur == lines.len() && *pos == lines.len(),
            parse_run(lv, cur, parent_level, fp, root@, ids.next_id()) == target,
            block_end(lv, cur, parent_level) == end0,
            p0 == *old(pos) as int,
            target == parse_run(lv, p0, parent_level, fp, old(root)@, old(ids).next_id()),
            end0 == block_end(lv, p0, parent_level),
        decreases 2 * (lines.len() - cur) + (if !done && cur == lines.len() { 1int } else { 0int }),
    {
        match find_item(line.as_str()) {
            None => {
                if *pos < lines.len() {
                    line = lines[*pos].clone();
                    *pos = *pos + 1;
                    proof {
                        cur = cur + 1;
                    }
                } else {
                    done = true;
                    proof {
                        cur = lv.len() as int;
                    }
                }
            },
            Some((i, name)) => {
                let (_, level) = pattern_at(i);
                if level <= parent_level {
                    return Ok(line);
                }
                let ghost next_id: nat = ids.next_id();
                if ids.last == u32::MAX {
                    proof {
                        let child = item_node(lv[cur], fp, next_id);
                        lemma_parse_run_grows(lv, cur + 1, level, fp, child, next_id + 1);
                        let sub = parse_run(lv, cur + 1, level, fp, child, next_id + 1);
                        lemma_block_end_bounds(lv, cur + 1, level);
                        lemma_parse_run_grows(lv, block_end(lv, cur + 1, level), parent_level, fp,
                            add_child_spec(root@, sub.0), sub.1);
                    }
                    return Err(MdError::Overflow);
                }
                let mut node = make_item_node(&line, i, name, file_path, ids);
                let ghost child = node@;
                let ghost sub = parse_run(lv, cur + 1, level, fp, child, next_id + 1);
                let ghost e = block_end(lv, cur + 1, level);
                proof {
                    lemma_block_end_bounds(lv, cur + 1, level);
                    lemma_block_end_nested(lv, cur + 1, level, parent_level);
                    lemma_parse_run_grows(lv, e, parent_level, fp, add_child_spec(root@, sub.0), sub.1);
                }
                let returned = parseMDLine(&mut node, lines, pos, level, file_path, ids);
                match returned {
                    Err(err) => {
                        return Err(err);
                    },
                    Ok(next_line) => {
                        if node.day > u32::MAX - root.day {
                            return Err(MdError::Overflow);
                        }
                        addChild(root, node);
                        line = next_line;
                        proof {
                            cur = e;
                        }
                    },
                }
            },
        }
    }
    Ok(String::new())
}


/// Reading lines into `root` keeps its id, name, file and kind.
pub proof fn lemma_parse_run_keeps(
    lines: Seq<Seq<char>>,
    cur: int,
    level: u16,
    fp: Seq<char>,
    root: NodeView,
    next_id: nat,
)
    ensures
        parse_run(lines, cur, level, fp, root, next_id).0.id == root.id,
        parse_run(lines, cur, level, fp, root, next_id).0.name == root.name,
        parse_run(lines, cur, level, fp, root, next_id).0.file == root.file,
        parse_run(lines, cur, level, fp, root, next_id).0.kind == root.kind,
    decreases lines.len() - cur,
{
    if 0 <= cur < lines.len() {
        match item_level(lines[cur]) {
            None => {
                lemma_parse_run_keeps(lines, cur + 1, level, fp, root, next_id);
            },
            Some(l) => {
                if l > level {
                    let child = item_node(lines[cur], fp, next_id);
                    let sub = parse_run(lines, cur + 1, l, fp, child, next_id + 1);
                    lemma_block_end_bounds(lines, cur + 1, l);
                    let e = block_end(lines, cur + 1, l);
                    lemma_parse_run_keeps(lines, e, level, fp, add_child_spec(root, sub.0), sub.1);
                }
            },
        }
    }
}

/// Reading below level `level` from line `k` stops at the first item of
/// level `level` or lower: every line before the stop is no item or an item
/// of a higher level, and the stop is the end or such an item.
pub proof fn law_block_end_first(lines: Seq<Seq<char>>, k: int, level: u16)
    requires
        0 <= k <= lines.len(),
    ensures
        k <= block_end(lines, k, level) <= lines.len(),
        forall|m: int| k <= m < block_end(lines, k, level) ==> match #[trigger] item_level(lines[m]) {
            Some(l) => l > level,
            None => true,
        },
        block_end(lines, k, level) < lines.len() ==> match item_level(lines[block_end(lines, k, level)]) {
            Some(l) => l <= level,
            None => false,
        },
    decreases lines.len() - k,
{
    if k < lines.len() {
        law_block_end_first(lines, k + 1, level);
    }
}

/// The node for an item of a `#` or `##` heading is a package; any other
/// item becomes a node as `Node::new` makes it from the captured name. Its
/// file is the captured `file`, or the file read; its id is the one given.
pub proof fn law_item_node_kinds(line: Seq<char>, fp: Seq<char>, id: nat)
    requires
        item_pattern(line) is Some,
    ensures
        md_level(item_pattern(line).unwrap()) <= 2 ==> item_node(line, fp, id).kind == VARIANT::Package
            && item_node(line, fp, id).state == crate::node::STATE::Unknown,
        md_level(item_pattern(line).unwrap()) > 2 ==> item_node(line, fp, id).kind
            == crate::node::kind_state_of(item_node(line, fp, id).name).0
            && item_node(line, fp, id).state == crate::node::kind_state_of(item_node(line, fp, id).name).1,
        item_node(line, fp, id).name == captured(line, item_pattern(line).unwrap(), "name"@).unwrap(),
        captured(line, item_pattern(line).unwrap(), "file"@) is None ==> item_node(line, fp, id).file == fp,
        item_node(line, fp, id).id == id,
        item_node(line, fp, id).children.len() == 0,
{
}

/// The ids `from`, `from + 1`, ..., up to but not including `to`.
pub open spec fn id_range(from: nat, to: nat) -> Seq<nat> {
    Seq::new((to - from) as nat, |k: int| (from + k) as nat)
}

/// Read from level 0, a file is read to its end: every item is of level 1
/// or more, so none closes the reading (and `parseMDLine` then consumes all
/// lines and returns the empty line).
pub proof fn law_top_level_reads_to_end(lines: Seq<Seq<char>>, k: int)
    requires
        0 <= k <= lines.len(),
    ensures
        block_end(lines, k, 0) == lines.len(),
    decreases lines.len() - k,
{
    if k < lines.len() {
        law_top_level_reads_to_end(lines, k + 1);
    }
}

/// Reading hands out one fresh id per node it adds: the nodes added to
/// `root`, taken in pre-order, carry the ids `next_id`, `next_id + 1`, ...
/// up to the next id after reading, each once.
pub proof fn law_parse_ids_consecutive(
    lines: Seq<Seq<char>>,
    cur: int,
    level: u16,
    fp: Seq<char>,
    root: NodeView,
    next_id: nat,
)
    ensures
        parse_run(lines, cur, level, fp, root, next_id).1 >= next_id,
        tree_ids(parse_run(lines, cur, level, fp, root, next_id).0)
            == tree_ids(root) + id_range(next_id, parse_run(lines, cur, level, fp, root, next_id).1),
    decreases lines.len() - cur,
{
    lemma_parse_run_grows(lines, cur, level, fp, root, next_id);
    let res = parse_run(lines, cur, level, fp, root, next_id);
    if cur < 0 || cur >= lines.len() {
        assert(tree_ids(res.0) =~= tree_ids(root) + id_range(next_id, res.1));
    } else {
        match item_level(lines[cur]) {
            None => {
                law_parse_ids_consecutive(lines, cur + 1, level, fp, root, next_id);
            },
            Some(l) => {
                if l <= level {
                    assert(tree_ids(res.0) =~= tree_ids(root) + id_range(next_id, res.1));
                } else {
                    let child = item_node(lines[cur], fp, next_id);
                    let sub = parse_run(lines, cur + 1, l, fp, child, next_id + 1);
                    law_parse_ids_consecutive(lines, cur + 1, l, fp, child, next_id + 1);
                    assert(tree_ids(child) =~= seq![next_id]);
                    assert(tree_ids(sub.0) =~= id_range(next_id, sub.1));
                    lemma_block_end_bounds(lines, cur + 1, l);
                    let e = block_end(lines, cur + 1, l);
                    let joined = add_child_spec(root, sub.0);
                    law_add_child_ids(root, sub.0);
                    law_parse_ids_consecutive(lines, e, level, fp, joined, sub.1);
                    assert(tree_ids(res.0) =~= tree_ids(root) + id_range(next_id, res.1));
                }
            },
        }
    }
}

} // verus!
