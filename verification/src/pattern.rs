//! The line patterns of the Markdown notes: which lines are items, at which
//! level, and what they capture. Matching itself is done by the `regex` crate.

use vstd::prelude::*;

verus! {

/// The number of line patterns.
pub open spec fn pattern_count() -> int {
    15
}

/// The line patterns, tried in this order. Every pattern has a `name` group;
/// some also capture `cost`, `day`, `dependency` or `file`.
pub open spec fn md_pattern(i: int) -> Seq<char> {
    if i == 0 {
        "^# (?P<name>.+)$"@
    } else if i == 1 {
        "^## (?P<name>.+)$"@
    } else if i == 2 {
        "^### (?P<name>Planned)"@
    } else if i == 3 {
        "^### (?P<name>Done)"@
    } else if i == 4 {
        "^### (?P<name>Dependencies)"@
    } else if i == 5 {
        "^- \\[(?P<name>.+)\\]\\((.*)\\)"@
    } else if i == 6 {
        "(^\\d+\\.|-) (?P<name>.*) (?P<cost>[\\d.]+) Euro"@
    } else if i == 7 {
        "(^\\d+\\.|-) (?P<name>.*) (?P<day>\\d+) Tag"@
    } else if i == 8 {
        "(^\\d+\\.|-) (?P<cost>[\\d.]+) Euro (?P<name>.*)"@
    } else if i == 9 {
        "(^\\d+\\.|-) (?P<day>\\d+) Tage (?P<name>.*)"@
    } else if i == 10 {
        "(^\\d+\\.|-) (?P<name>.*) (?P<cost>\\d+) Euro .*(?P<day>\\d+) Tag"@
    } else if i == 11 {
        "(^\\d+\\.|-) (?P<name>.*) (?P<day>\\d+) Tage* .*(?P<cost>\\d+) Euro"@
    } else if i == 12 {
        "^\\d+\\. (?P<name>.+)"@
    } else if i == 13 {
        "^- (?P<dependency>.+) \\[(?P<name>.+)\\]\\((?P<file>.+)\\)"@
    } else {
        "^- (?P<name>.+)"@
    }
}

/// The level of the items that pattern `i` finds: `#` headings are 1, `##`
/// headings 2, the state and dependency headings 3, list entries 4.
pub open spec fn md_level(i: int) -> u16 {
    if i == 0 {
        1
    } else if i == 1 {
        2
    } else if i <= 4 {
        3
    } else {
        4
    }
}

/// Whether the text `p` starts with `prefix`.
pub open spec fn starts_with(p: Seq<char>, prefix: Seq<char>) -> bool {
    p.len() >= prefix.len() && p.subrange(0, prefix.len() as int) == prefix
}

/// The level of an item follows the depth of the heading its pattern reads:
/// `# ` headings give level 1, `## ` headings level 2, `### ` headings
/// (Planned, Done, Dependencies) level 3, and every pattern that reads no
/// heading gives list entries of level 4.
pub proof fn law_heading_levels(i: int)
    requires
        0 <= i < pattern_count(),
    ensures
        starts_with(md_pattern(i), "^# "@) ==> md_level(i) == 1,
        starts_with(md_pattern(i), "^## "@) ==> md_level(i) == 2,
        starts_with(md_pattern(i), "^### "@) ==> md_level(i) == 3,
        !starts_with(md_pattern(i), "^#"@) ==> md_level(i) == 4,
{
    reveal_strlit("^# ");
    reveal_strlit("^## ");
    reveal_strlit("^### ");
    reveal_strlit("^#");
    let p = md_pattern(i);
    if i == 0 {
        reveal_strlit("^# (?P<name>.+)$");
        assert(p[1] == '#' && p[2] == ' ');
        assert(p.subrange(0, 2) =~= "^#"@);
    } else if i == 1 {
        reveal_strlit("^## (?P<name>.+)$");
        assert(p[2] == '#' && p[3] == ' ');
        assert(p.subrange(0, 2) =~= "^#"@);
    } else if i == 2 {
        reveal_strlit("^### (?P<name>Planned)");
        assert(p[2] == '#' && p[3] == '#');
        assert(p.subrange(0, 2) =~= "^#"@);
    } else if i == 3 {
        reveal_strlit("^### (?P<name>Done)");
        assert(p[2] == '#' && p[3] == '#');
        assert(p.subrange(0, 2) =~= "^#"@);
    } else if i == 4 {
        reveal_strlit("^### (?P<name>Dependencies)");
        assert(p[2] == '#' && p[3] == '#');
        assert(p.subrange(0, 2) =~= "^#"@);
    } else {
        if i == 5 {
            reveal_strlit("^- \\[(?P<name>.+)\\]\\((.*)\\)");
        } else if i == 6 {
            reveal_strlit("(^\\d+\\.|-) (?P<name>.*) (?P<cost>[\\d.]+) Euro");
        } else if i == 7 {
            reveal_strlit("(^\\d+\\.|-) (?P<name>.*) (?P<day>\\d+) Tag");
        } else if i == 8 {
            reveal_strlit("(^\\d+\\.|-) (?P<cost>[\\d.]+) Euro (?P<name>.*)");
        } else if i == 9 {
            reveal_strlit("(^\\d+\\.|-) (?P<day>\\d+) Tage (?P<name>.*)");
        } else if i == 10 {
            reveal_strlit("(^\\d+\\.|-) (?P<name>.*) (?P<cost>\\d+) Euro .*(?P<day>\\d+) Tag");
        } else if i == 11 {
            reveal_strlit("(^\\d+\\.|-) (?P<name>.*) (?P<day>\\d+) Tage* .*(?P<cost>\\d+) Euro");
        } else if i == 12 {
            reveal_strlit("^\\d+\\. (?P<name>.+)");
        } else if i == 13 {
            reveal_strlit("^- (?P<dependency>.+) \\[(?P<name>.+)\\]\\((?P<file>.+)\\)");
        } else {
            reveal_strlit("^- (?P<name>.+)");
        }
        assert(p[0] != '^' || p[1] != '#');
        if starts_with(p, "^#"@) {
            assert(p.subrange(0, 2)[0] == p[0] && p.subrange(0, 2)[1] == p[1]);
        }
        if starts_with(p, "^# "@) {
            assert(p.subrange(0, 3)[1] == p[1]);
        }
        if starts_with(p, "^## "@) {
            assert(p.subrange(0, 4)[1] == p[1]);
        }
        if starts_with(p, "^### "@) {
            assert(p.subrange(0, 5)[1] == p[1]);
        }
    }
    if starts_with(p, "^# "@) {
        assert(p.subrange(0, 3)[2] == p[2]);
    }
    if starts_with(p, "^## "@) {
        assert(p.subrange(0, 4)[2] == p[2] && p.subrange(0, 4)[3] == p[3]);
    }
    if starts_with(p, "^### "@) {
        assert(p.subrange(0, 5)[3] == p[3]);
    }
}

/// Pattern `i` and the level of its items.
pub fn pattern_at(i: usize) -> (r: (&'static str, u16))
    requires
        i < pattern_count(),
    ensures
        r.0@ == md_pattern(i as int),
        r.1 == md_level(i as int),
{
    match i {
        0 => ("^# (?P<name>.+)$", 1),
        1 => ("^## (?P<name>.+)$", 2),
        2 => ("^### (?P<name>Planned)", 3),
        3 => ("^### (?P<name>Done)", 3),
        4 => ("^### (?P<name>Dependencies)", 3),
        5 => ("^- \\[(?P<name>.+)\\]\\((.*)\\)", 4),
        6 => ("(^\\d+\\.|-) (?P<name>.*) (?P<cost>[\\d.]+) Euro", 4),
        7 => ("(^\\d+\\.|-) (?P<name>.*) (?P<day>\\d+) Tag", 4),
        8 => ("(^\\d+\\.|-) (?P<cost>[\\d.]+) Euro (?P<name>.*)", 4),
        9 => ("(^\\d+\\.|-) (?P<day>\\d+) Tage (?P<name>.*)", 4),
        10 => ("(^\\d+\\.|-) (?P<name>.*) (?P<cost>\\d+) Euro .*(?P<day>\\d+) Tag", 4),
        11 => ("(^\\d+\\.|-) (?P<name>.*) (?P<day>\\d+) Tage* .*(?P<cost>\\d+) Euro", 4),
        12 => ("^\\d+\\. (?P<name>.+)", 4),
        13 => ("^- (?P<dependency>.+) \\[(?P<name>.+)\\]\\((?P<file>.+)\\)", 4),
        _ => ("^- (?P<name>.+)", 4),
    }
}

/// Whether the `regex` crate compiles `pattern` (with its default settings).
pub uninterp spec fn regex_valid(pattern: Seq<char>) -> bool;

/// What the compiled `pattern` finds in `text`: `None` where it does not
/// match, else the text that the group named `group` took in the first
/// match, if that group took part in it.
pub uninterp spec fn regex_capture(pattern: Seq<char>, text: Seq<char>, group: Seq<char>) -> Option<Option<Seq<char>>>;

/// The error that `regex` reports for a pattern it cannot compile.
#[verifier::external_type_specification]
#[verifier::external_body]
pub struct ExRegexError(regex::Error);

/// Calls `regex::RegexBuilder::new(pattern).build()` and keeps only whether
/// it succeeded. The contract claims that it succeeds exactly where the
/// named `regex_valid` holds.
#[verifier::external_body]
fn check_regex(pattern: &str) -> (r: Result<(), regex::Error>)
    ensures
        r is Ok <==> regex_valid(pattern@),
{
    match regex::RegexBuilder::new(pattern).build() {
        Ok(_) => Ok(()),
        Err(e) => Err(e),
    }
}

/// Compiles `pattern` as `regex::RegexBuilder::build` does, calls
/// `Regex::captures` on `text` and then `Captures::name(group)`. The contract
/// claims only that the outcome is the named `regex_capture`; compiling cannot
/// fail, as `requires` asks for a pattern that compiles.
#[verifier::external_body]
fn capture_group(pattern: &str, text: &str, group: &str) -> (r: Option<Option<String>>)
    requires
        regex_valid(pattern@),
    ensures
        r is None ==> regex_capture(pattern@, text@, group@) is None,
        r matches Some(g) ==> (g is None ==> regex_capture(pattern@, text@, group@) == Some(None::<Seq<char>>)),
        r matches Some(g) ==> (g matches Some(s) ==> regex_capture(pattern@, text@, group@) == Some(Some(s@))),
{
    let re = regex::RegexBuilder::new(pattern).build().unwrap();
    match re.captures(text) {
        None => None,
        Some(caps) => match caps.name(group) {
            None => Some(None),
            Some(m) => Some(Some(m.as_str().to_string())),
        },
    }
}

/// The text that group `group` of pattern `i` takes in `line`, if the pattern
/// matches and the group takes part.
pub open spec fn captured(line: Seq<char>, i: int, group: Seq<char>) -> Option<Seq<char>> {
    match regex_capture(md_pattern(i), line, group) {
        Some(Some(s)) => Some(s),
        _ => None,
    }
}

/// The first pattern from `i` on that matches `line` with a `name`.
pub open spec fn first_item_pattern(line: Seq<char>, i: int) -> Option<int>
    decreases pattern_count() - i,
{
    if i < 0 || i >= pattern_count() {
        None
    } else if captured(line, i, "name"@) is Some {
        Some(i)
    } else {
        first_item_pattern(line, i + 1)
    }
}

/// The pattern that makes `line` an item: the first one that matches it with a `name`.
pub open spec fn item_pattern(line: Seq<char>) -> Option<int> {
    first_item_pattern(line, 0)
}

/// The level of the item that `line` is, if it is one.
pub open spec fn item_level(line: Seq<char>) -> Option<u16> {
    match item_pattern(line) {
        Some(i) => Some(md_level(i)),
        None => None,
    }
}

/// Whether every pattern compiles.
pub open spec fn patterns_compile() -> bool {
    forall|i: int| 0 <= i < pattern_count() ==> #[trigger] regex_valid(md_pattern(i))
}

/// Whether the patterns can be used to read notes: all of them compile and
/// none makes the empty line an item.
pub open spec fn patterns_usable() -> bool {
    patterns_compile() && item_pattern(Seq::empty()) is None
}

/// Why the notes could not be read as the original reading does.
#[derive(PartialEq, Eq, Structural, Clone, Copy, Debug)]
pub enum MdError {
    /// A line pattern does not compile.
    InvalidPattern,
    /// A line pattern makes the empty line an item.
    EmptyLineItem,
    /// A node id or a node's days went past the 32-bit range.
    Overflow,
    /// A file to read is not a Markdown (`.md`) file.
    NotMarkdown,
    /// A file to read could not be read.
    Unreadable,
    /// Listing a directory reported an error.
    ListingFailed,
    /// A file to read has no extension.
    MissingExtension,
}

/// The text that group `group` of pattern `i` takes in `line`.
pub fn group_text(i: usize, line: &str, group: &str) -> (r: Option<String>)
    requires
        i < pattern_count(),
        patterns_compile(),
    ensures
        r matches Some(s) ==> captured(line@, i as int, group@) == Some(s@),
        r is None ==> captured(line@, i as int, group@) is None,
{
    let (pattern, _) = pattern_at(i);
    assert(regex_valid(md_pattern(i as int)));
    match capture_group(pattern, line, group) {
        Some(Some(s)) => Some(s),
        _ => None,
    }
}

/// The pattern that makes `line` an item, with the name it captures.
pub fn find_item(line: &str) -> (r: Option<(usize, String)>)
    requires
        patterns_compile(),
    ensures
        r matches Some(p) ==> item_pattern(line@) == Some(p.0 as int) && p.0 < pattern_count()
            && captured(line@, p.0 as int, "name"@) == Some(p.1@),
        r is None ==> item_pattern(line@) is None,
{
    let mut i: usize = 0;
    while i < 15
        invariant
            i <= 15,
            patterns_compile(),
            item_pattern(line@) == first_item_pattern(line@, i as int),
        decreases 15 - i,
    {
        match group_text(i, line, "name") {
            Some(name) => {
                return Some((i, name));
            },
            None => {},
        }
        i = i + 1;
    }
    None
}

/// Whether the patterns are usable (see `patterns_usable`): `InvalidPattern`
/// where one does not compile, `EmptyLineItem` where the empty line is an item.
pub fn check_patterns() -> (r: Result<(), MdError>)
    ensures
        r is Ok <==> patterns_usable(),
        r == Err::<(), MdError>(MdError::InvalidPattern) <==> !patterns_compile(),
        r is Err ==> r == Err::<(), MdError>(MdError::InvalidPattern) || r == Err::<(), MdError>(MdError::EmptyLineItem),
{
    let mut i: usize = 0;
    while i < 15
        invariant
            i <= 15,
            forall|j: int| 0 <= j < i ==> #[trigger] regex_valid(md_pattern(j)),
        decreases 15 - i,
    {
        let (pattern, _) = pattern_at(i);
        match check_regex(pattern) {
            Ok(()) => {},
            Err(_) => {
                return Err(MdError::InvalidPattern);
            },
        }
        i = i + 1;
    }
    let empty = String::new();
    match find_item(empty.as_str()) {
        Some(_) => Err(MdError::EmptyLineItem),
        None => Ok(()),
    }
}

} // verus!
