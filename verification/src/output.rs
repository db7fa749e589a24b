//! Where the drawing is written: the directory and base name of the output
//! files, and the text that goes into them.

use vstd::prelude::*;
use vstd::string::*;
use crate::pathname::{path_extension, path_file_stem, path_file_name, path_parent, extension, file_stem, file_name, parent};
use crate::text::str_equal;

verus! {

/// The output path as given, if it is absolute; else the same path below `./`.
pub open spec fn output_path_spec(output: Seq<char>) -> Seq<char> {
    if output.len() > 0 && output[0] == '/' {
        output
    } else {
        "./"@ + output
    }
}

/// The output path as given, if it starts with `/`; else the same path below `./`.
pub fn output_path(output: &str) -> (r: String)
    ensures
        r@ == output_path_spec(output@),
{
    if output.unicode_len() > 0 && output.get_char(0) == '/' {
        output.to_owned()
    } else {
        let mut r = "./".to_owned();
        r.append(output);
        r
    }
}

/// The directory and base name of the output files for the output path
/// `path`: a directory gives itself and `output`; a Markdown file its parent
/// and its stem; another file its parent and its name. A path without an
/// extension, and one whose stem, name or parent is missing, give nothing.
pub open spec fn output_target_spec(path: Seq<char>, is_dir: bool) -> Option<(Seq<char>, Seq<char>)> {
    if is_dir {
        Some((path, "output"@))
    } else {
        match path_extension(path) {
            None => None,
            Some(ext) => {
                let name = if ext == "md"@ {
                    path_file_stem(path)
                } else {
                    path_file_name(path)
                };
                match (name, path_parent(path)) {
                    (Some(n), Some(p)) => Some((p, n)),
                    _ => None,
                }
            },
        }
    }
}

/// The directory and base name of the output files (see `output_target_spec`);
/// `is_dir` tells whether `path` is an existing directory.
pub fn output_target(path: &str, is_dir: bool) -> (r: Option<(String, String)>)
    ensures
        r matches Some(t) ==> output_target_spec(path@, is_dir) == Some((t.0@, t.1@)),
        r is None ==> output_target_spec(path@, is_dir) is None,
{
    if is_dir {
        return Some((path.to_owned(), "output".to_owned()));
    }
    let ext = match extension(path) {
        None => {
            return None;
        },
        Some(e) => e,
    };
    let name = if str_equal(ext.as_str(), "md") {
        file_stem(path)
    } else {
        file_name(path)
    };
    match (name, parent(path)) {
        (Some(n), Some(p)) => Some((p, n)),
        _ => None,
    }
}

/// The path of the output file `dir/name.ext`.
pub fn output_file(dir: &str, name: &str, ext: &str) -> (r: String)
    ensures
        r@ == dir@ + "/"@ + name@ + "."@ + ext@,
{
    let mut r = dir.to_owned();
    r.append("/");
    r.append(name);
    r.append(".");
    r.append(ext);
    r
}

/// `s` without its line feeds.
pub open spec fn without_newlines(s: Seq<char>) -> Seq<char> {
    s.filter(|c: char| c != '\n')
}

/// `s` without its line feeds, as `s.replace("\n", "")` gives it.
pub fn remove_newlines(s: &str) -> (r: String)
    ensures
        r@ == without_newlines(s@),
{
    let n = s.unicode_len();
    let mut r = String::new();
    let mut i: usize = 0;
    while i < n
        invariant
            n == s@.len(),
            i <= n,
            r@ == without_newlines(s@.subrange(0, i as int)),
        decreases n - i,
    {
        let c = s.get_char(i);
        let piece = s.substring_char(i, i + 1);
        assert(s@.subrange(0, i + 1).drop_last() =~= s@.subrange(0, i as int));
        if c != '\n' {
            r.append(piece);
            assert(piece@ =~= seq![c]);
        }
        proof {
            let t = s@.subrange(0, i + 1);
            assert(t.last() == c);
            reveal(Seq::filter);
            assert(without_newlines(t) == without_newlines(t.drop_last()) + (if c != '\n' { seq![c] } else { Seq::empty() }));
        }
        i = i + 1;
    }
    assert(s@.subrange(0, n as int) =~= s@);
    r
}

} // verus!
