//! Context-bundle construction rules: deriving a module name from a file
//! path, scanning import statements, resolving a module to candidate
//! files, reverse-dependency snippets, and test-file name heuristics.
//!
//! Paths are handled as plain `/`-separated strings; the filesystem work
//! around these rules stays outside the library and hands in file
//! contents and existence facts.

use vstd::prelude::*;
use crate::text::has_sub;
use crate::text::contains_sub;
use crate::text::is_space;
use crate::text::join_strings;
use crate::text::join_with;
use crate::text::lemma_find_char_from;
use crate::text::replace_all;
use crate::text::replace_from;
use crate::text::rfind_char_at;
use crate::text::rfind_char_before;
use crate::text::split_char;
use crate::text::split_char_from;
use crate::text::split_lines;
use crate::text::split_lines_from;
use crate::text::starts_with;
use crate::text::starts_with_str;
use crate::text::str_eq;
use crate::text::trim_spec;
use crate::text::trim_str;
use crate::text::ws_end_at;
use crate::text::ws_prefix_end;
use crate::types::Snippet;

verus! {

/// Builds the context bundle for a repository root.
pub struct ContextBuilder {
    pub repo_root: String,
}

impl ContextBuilder {
    /// A builder scoped to one repository root.
    pub fn new(repo_root: String) -> (r: ContextBuilder)
        ensures
            r.repo_root@ == repo_root@,
    {
        ContextBuilder { repo_root }
    }
}

/// The stem of a file name: the part before the last `.`, except that a
/// name whose only `.` leads it is its own stem; `None` for an empty name.
pub open spec fn spec_file_stem(name: Seq<char>) -> Option<Seq<char>> {
    if name.len() == 0 {
        None
    } else {
        match rfind_char_before(name, '.', name.len() as int) {
            Some(j) => if j > 0 {
                Some(name.subrange(0, j))
            } else {
                Some(name)
            },
            None => Some(name),
        }
    }
}

/// Computes the stem of a file name.
pub fn file_stem_of(name: &str) -> (r: Option<String>)
    ensures
        match r {
            Some(st) => spec_file_stem(name@) == Some(st@),
            None => spec_file_stem(name@) is None,
        },
{
    let n = name.unicode_len();
    if n == 0 {
        return None;
    }
    match rfind_char_at(name, '.', n) {
        Some(j) => if j > 0 {
            Some(String::from_str(name.substring_char(0, j)))
        } else {
            Some(String::from_str(name))
        },
        None => Some(String::from_str(name)),
    }
}

/// The module name a file under the repository root stands for: the
/// relative path's directories and the file's stem joined with `.`,
/// empty path segments dropped.
pub open spec fn spec_file_to_module(root: Seq<char>, path: Seq<char>) -> Option<Seq<char>> {
    if !starts_with(path, root) {
        None
    } else {
        let rel = path.subrange(root.len() as int, path.len() as int);
        let parts = split_char_from(rel, '/', 0);
        let name = parts.last();
        match spec_file_stem(name) {
            None => None,
            Some(st) => Some(
                join_with(
                    parts.take(parts.len() - 1).push(st).filter(|p: Seq<char>| p.len() > 0),
                    "."@,
                ),
            ),
        }
    }
}

/// Derives the dotted module name of `path` relative to `root`.
pub fn file_to_module(root: &str, path: &str) -> (r: Option<String>)
    ensures
        match r {
            Some(m) => spec_file_to_module(root@, path@) == Some(m@),
            None => spec_file_to_module(root@, path@) is None,
        },
{
    if !starts_with_str(path, root) {
        return None;
    }
    let n = path.unicode_len();
    let m = root.unicode_len();
    let rel = path.substring_char(m, n);
    let parts = split_char(rel, '/');
    assert(parts@.len() > 0) by {
        lemma_split_char_nonempty(rel@, '/', 0);
    }
    let name = &parts[parts.len() - 1];
    let stem = match file_stem_of(name.as_str()) {
        None => {
            return None;
        },
        Some(st) => st,
    };
    let mut kept: Vec<String> = Vec::new();
    let ghost spec_parts = split_char_from(rel@, '/', 0);
    let ghost full = spec_parts.take(spec_parts.len() - 1).push(stem@);
    let mut i: usize = 0;
    proof {
        assert(full.take(0) =~= Seq::<Seq<char>>::empty());
        reveal(Seq::filter);
        assert(kept@.map_values(|p: String| p@) =~= full.take(0).filter(
            |p: Seq<char>| p.len() > 0,
        ));
    }
    while i < parts.len() - 1
        invariant
            0 <= i <= full.len() - 1,
            parts@.len() > 0,
            full.len() == parts@.len(),
            spec_parts.len() == parts@.len(),
            full == spec_parts.take(spec_parts.len() - 1).push(stem@),
            forall|k: int| 0 <= k < parts@.len() ==> parts@[k]@ == spec_parts[k],
            kept@.map_values(|p: String| p@) == full.take(i as int).filter(
                |p: Seq<char>| p.len() > 0,
            ),
        decreases parts@.len() - i,
    {
        proof {
            assert(full[i as int] == spec_parts[i as int]);
            assert(full[i as int] == parts@[i as int]@);
            assert(full.take(i + 1).drop_last() =~= full.take(i as int));
            assert(full.take(i + 1).last() == full[i as int]);
            reveal(Seq::filter);
        }
        if parts[i].as_str().unicode_len() > 0 {
            kept.push(parts[i].clone());
            proof {
                assert(kept@.map_values(|p: String| p@) =~= full.take(i + 1).filter(
                    |p: Seq<char>| p.len() > 0,
                ));
            }
        } else {
            proof {
                assert(kept@.map_values(|p: String| p@) =~= full.take(i + 1).filter(
                    |p: Seq<char>| p.len() > 0,
                ));
            }
        }
        i += 1;
    }
    proof {
        assert(full.drop_last() =~= full.take(full.len() - 1));
        assert(full.last() == stem@);
        assert(i as int == full.len() - 1);
        reveal(Seq::filter);
    }
    if stem.as_str().unicode_len() > 0 {
        kept.push(stem);
        proof {
            assert(kept@.map_values(|p: String| p@) =~= full.filter(|p: Seq<char>| p.len() > 0));
        }
    } else {
        proof {
            assert(kept@.map_values(|p: String| p@) =~= full.filter(|p: Seq<char>| p.len() > 0));
        }
    }
    Some(join_strings(&kept, "."))
}

/// Splitting always yields at least one segment.
proof fn lemma_split_char_nonempty(s: Seq<char>, c: char, i: int)
    requires
        0 <= i <= s.len(),
    ensures
        split_char_from(s, c, i).len() > 0,
{
    lemma_find_char_from(s, c, i);
}

/// A character of a dotted module name: an ASCII letter, digit,
/// underscore or dot.
pub open spec fn is_module_char(c: char) -> bool {
    (0x41 <= c as u32 && c as u32 <= 0x5A) || (0x61 <= c as u32 && c as u32 <= 0x7A) || (0x30 <= c
        as u32 && c as u32 <= 0x39) || c == '_' || c == '.'
}

/// First position at or after `i` that ends a run of module-name
/// characters.
pub open spec fn module_chars_end(s: Seq<char>, i: int) -> int
    decreases s.len() - i when 0 <= i <= s.len()
{
    if i == s.len() {
        i
    } else if !is_module_char(s[i]) {
        i
    } else {
        module_chars_end(s, i + 1)
    }
}

fn is_module_char_exec(c: char) -> (r: bool)
    ensures
        r == is_module_char(c),
{
    let u = c as u32;
    (0x41 <= u && u <= 0x5A) || (0x61 <= u && u <= 0x7A) || (0x30 <= u && u <= 0x39) || u == 0x5F
        || u == 0x2E
}

fn module_chars_end_exec(s: &str, from: usize) -> (r: usize)
    requires
        from <= s@.len(),
    ensures
        r == module_chars_end(s@, from as int),
        from <= r <= s@.len(),
{
    let n = s.unicode_len();
    let mut i = from;
    while i < n && is_module_char_exec(s.get_char(i))
        invariant
            from <= i <= n,
            n == s@.len(),
            module_chars_end(s@, from as int) == module_chars_end(s@, i as int),
        decreases n - i,
    {
        i += 1;
    }
    i
}

/// The module a line imports: after a leading `from` or `import` keyword,
/// at least one whitespace character, then a run of module-name
/// characters.
pub open spec fn spec_line_import(line: Seq<char>) -> Option<Seq<char>> {
    let k: int = if starts_with(line, "from"@) {
        ("from"@).len() as int
    } else if starts_with(line, "import"@) {
        ("import"@).len() as int
    } else {
        -1
    };
    if k < 0 || k >= line.len() || !is_space(line[k]) {
        None
    } else {
        let w = ws_prefix_end(line, k);
        let me = module_chars_end(line, w);
        if me == w {
            None
        } else {
            Some(line.subrange(w, me))
        }
    }
}

/// The modules the lines import, from line `i` on.
pub open spec fn spec_imports_loop(lines: Seq<Seq<char>>, i: int) -> Seq<Seq<char>>
    decreases lines.len() - i when 0 <= i <= lines.len()
{
    if i >= lines.len() {
        Seq::empty()
    } else {
        match spec_line_import(lines[i]) {
            Some(m) => seq![m] + spec_imports_loop(lines, i + 1),
            None => spec_imports_loop(lines, i + 1),
        }
    }
}

/// The modules `content` imports, line by line.
pub open spec fn spec_extract_imports(content: Seq<char>) -> Seq<Seq<char>> {
    spec_imports_loop(split_lines_from(content, 0), 0)
}

fn line_import(line: &str) -> (r: Option<String>)
    ensures
        match r {
            Some(m) => spec_line_import(line@) == Some(m@),
            None => spec_line_import(line@) is None,
        },
{
    let n = line.unicode_len();
    let k: usize = if starts_with_str(line, "from") {
        "from".unicode_len()
    } else if starts_with_str(line, "import") {
        "import".unicode_len()
    } else {
        return None;
    };
    if k >= n {
        return None;
    }
    if !crate::text::is_space_char(line.get_char(k)) {
        return None;
    }
    let w = ws_end_at(line, k);
    let me = module_chars_end_exec(line, w);
    if me == w {
        return None;
    }
    Some(String::from_str(line.substring_char(w, me)))
}

/// Scans `content` for `from X ...` and `import X` statements at line
/// starts and returns each imported module name, in order.
pub fn extract_imports(content: &str) -> (r: Vec<String>)
    ensures
        r@.len() == spec_extract_imports(content@).len(),
        forall|k: int| 0 <= k < r@.len() ==> r@[k]@ == spec_extract_imports(content@)[k],
{
    let lines = split_lines(content);
    let ghost line_views = split_lines_from(content@, 0);
    let mut out: Vec<String> = Vec::new();
    let mut i: usize = 0;
    while i < lines.len()
        invariant
            0 <= i <= lines@.len(),
            lines@.len() == line_views.len(),
            forall|k: int| 0 <= k < lines@.len() ==> lines@[k]@ == line_views[k],
            spec_imports_loop(line_views, 0).len() == out@.len() + spec_imports_loop(
                line_views,
                i as int,
            ).len(),
            forall|k: int|
                0 <= k < out@.len() ==> out@[k]@ == spec_imports_loop(line_views, 0)[k],
            forall|k: int|
                0 <= k < spec_imports_loop(line_views, i as int).len() ==> spec_imports_loop(
                    line_views,
                    i as int,
                )[k] == spec_imports_loop(line_views, 0)[out@.len() + k],
        decreases lines@.len() - i,
    {
        let ghost pending = spec_imports_loop(line_views, i as int);
        let ghost done = out@.len() as int;
        match line_import(lines[i].as_str()) {
            Some(m) => {
                out.push(m);
                proof {
                    assert(pending == seq![out@[done]@] + spec_imports_loop(line_views, i + 1));
                    assert forall|k: int| 0 <= k < out@.len() implies out@[k]@
                        == spec_imports_loop(line_views, 0)[k] by {
                        if k == done {
                            assert(spec_imports_loop(line_views, 0)[k] == pending[0]);
                        }
                    }
                    assert forall|k: int|
                        0 <= k < spec_imports_loop(line_views, i + 1).len() implies #[trigger] spec_imports_loop(
                        line_views,
                        i + 1,
                    )[k] == spec_imports_loop(line_views, 0)[out@.len() + k] by {
                        assert(spec_imports_loop(line_views, i + 1)[k] == pending[k + 1]);
                        assert(pending[k + 1] == spec_imports_loop(line_views, 0)[done + k + 1]);
                    }
                }
            },
            None => {
                proof {
                    assert(pending == spec_imports_loop(line_views, i + 1));
                }
            },
        }
        i += 1;
    }
    proof {
        assert(spec_imports_loop(line_views, lines@.len() as int).len() == 0);
    }
    out
}

/// The two files a dotted module may resolve to under the root: the
/// module path with a `.py` extension, or its `__init__.py`.
pub open spec fn spec_module_base(root: Seq<char>, module: Seq<char>) -> Seq<char> {
    root + "/"@ + replace_from(module, "."@, "/"@, 0)
}

/// Computes the two candidate files for a module: `<base>.py` and
/// `<base>/__init__.py`.
pub fn module_candidate_paths(root: &str, module: &str) -> (r: (String, String))
    ensures
        r.0@ == spec_module_base(root@, module@) + ".py"@,
        r.1@ == spec_module_base(root@, module@) + "/__init__.py"@,
{
    proof {
        reveal_strlit(".");
    }
    let rel = replace_all(module, ".", "/");
    let mut base = String::from_str(root);
    base.append("/");
    base.append(rel.as_str());
    let mut py = base.clone();
    py.append(".py");
    let mut init = base.clone();
    init.append("/__init__.py");
    (py, init)
}

/// Resolves a module to a file under the root, preferring `<module>.py`
/// over `<module>/__init__.py`; existence of each candidate is handed in.
pub fn resolve_module(root: &str, module: &str, py_exists: bool, init_exists: bool) -> (r: Option<
    String,
>)
    ensures
        py_exists ==> r is Some && r->Some_0@ == spec_module_base(root@, module@) + ".py"@,
        !py_exists && init_exists ==> r is Some && r->Some_0@ == spec_module_base(root@, module@)
            + "/__init__.py"@,
        !py_exists && !init_exists ==> r is None,
{
    let (py, init) = module_candidate_paths(root, module);
    if py_exists {
        Some(py)
    } else if init_exists {
        Some(init)
    } else {
        None
    }
}

/// The reverse-dependency snippets of one file: for each of the first
/// three lines whose text mentions the module, the 1-based line number
/// and the trimmed line.
pub open spec fn spec_snippets_loop(lines: Seq<Seq<char>>, module: Seq<char>, i: int, count: int) -> Seq<
    (int, Seq<char>),
>
    decreases lines.len() - i when 0 <= i <= lines.len()
{
    if i >= lines.len() || count >= 3 {
        Seq::empty()
    } else if has_sub(lines[i], module) {
        if count + 1 >= 3 {
            seq![(i + 1, trim_spec(lines[i]))]
        } else {
            seq![(i + 1, trim_spec(lines[i]))] + spec_snippets_loop(lines, module, i + 1, count + 1)
        }
    } else {
        spec_snippets_loop(lines, module, i + 1, count)
    }
}

/// The snippets recorded for `content` when it mentions `module`.
pub open spec fn spec_snippets_for_module(content: Seq<char>, module: Seq<char>) -> Seq<
    (int, Seq<char>),
> {
    spec_snippets_loop(split_lines_from(content, 0), module, 0, 0)
}

/// Collects up to three line-level snippets of `content` that mention
/// `module`, with 1-based line numbers and trimmed text.
pub fn snippets_for_module(content: &str, module: &str) -> (r: Vec<Snippet>)
    ensures
        r@.len() == spec_snippets_for_module(content@, module@).len(),
        forall|k: int|
            0 <= k < r@.len() ==> (#[trigger] r@[k]).line_start as int
                == spec_snippets_for_module(content@, module@)[k].0 && r@[k].line_end as int
                == spec_snippets_for_module(content@, module@)[k].0 && r@[k].content@
                == spec_snippets_for_module(content@, module@)[k].1,
        r@.len() <= 3,
{
    let lines = split_lines(content);
    let ghost line_views = split_lines_from(content@, 0);
    let mut out: Vec<Snippet> = Vec::new();
    let mut i: usize = 0;
    let ghost full = spec_snippets_loop(line_views, module@, 0, 0);
    while i < lines.len() && out.len() < 3
        invariant
            0 <= i <= lines@.len(),
            out@.len() <= 3,
            lines@.len() == line_views.len(),
            forall|k: int| 0 <= k < lines@.len() ==> lines@[k]@ == line_views[k],
            full.len() == out@.len() + spec_snippets_loop(
                line_views,
                module@,
                i as int,
                out@.len() as int,
            ).len(),
            forall|k: int|
                0 <= k < out@.len() ==> (#[trigger] out@[k]).line_start as int == full[k].0
                    && out@[k].line_end as int == full[k].0 && out@[k].content@ == full[k].1,
            forall|k: int|
                0 <= k < spec_snippets_loop(line_views, module@, i as int, out@.len() as int).len()
                    ==> #[trigger] spec_snippets_loop(
                    line_views,
                    module@,
                    i as int,
                    out@.len() as int,
                )[k] == full[out@.len() + k],
        decreases lines@.len() - i,
    {
        let ghost pending = spec_snippets_loop(line_views, module@, i as int, out@.len() as int);
        let ghost done = out@.len() as int;
        if contains_sub(lines[i].as_str(), module) {
            let trimmed = String::from_str(trim_str(lines[i].as_str()));
            out.push(Snippet { line_start: i + 1, line_end: i + 1, content: trimmed });
            proof {
                assert(pending[0] == (i + 1, trim_spec(line_views[i as int])));
                assert(full[done] == pending[0]);
                if done + 1 < 3 {
                    assert(pending == seq![pending[0]] + spec_snippets_loop(
                        line_views,
                        module@,
                        i + 1,
                        done + 1,
                    ));
                    assert forall|k: int|
                        0 <= k < spec_snippets_loop(line_views, module@, i + 1, done + 1).len()
                            implies #[trigger] spec_snippets_loop(
                        line_views,
                        module@,
                        i + 1,
                        done + 1,
                    )[k] == full[done + 1 + k] by {
                        assert(spec_snippets_loop(line_views, module@, i + 1, done + 1)[k]
                            == pending[k + 1]);
                    }
                } else {
                    assert(pending =~= seq![pending[0]]);
                }
            }
        } else {
            proof {
                assert(pending == spec_snippets_loop(line_views, module@, i + 1, done));
            }
        }
        i += 1;
    }
    proof {
        if i < lines@.len() {
            assert(out@.len() == 3);
            assert(spec_snippets_loop(line_views, module@, i as int, 3).len() == 0);
        } else {
            assert(spec_snippets_loop(line_views, module@, i as int, out@.len() as int).len()
                == 0);
        }
    }
    out
}

/// An extension the reverse-dependency walk reads.
pub fn is_context_extension(ext: &str) -> (r: bool)
    ensures
        r == (ext@ == "py"@ || ext@ == "rs"@ || ext@ == "ts"@ || ext@ == "js"@),
{
    str_eq(ext, "py") || str_eq(ext, "rs") || str_eq(ext, "ts") || str_eq(ext, "js")
}

/// The test-file names tried for a target stem: `test_<stem>.py`,
/// `<stem>_test.py` and `test_<stem>.rs`.
pub fn test_candidates(stem: &str) -> (r: Vec<String>)
    ensures
        r@.len() == 3,
        r@[0]@ == "test_"@ + stem@ + ".py"@,
        r@[1]@ == stem@ + "_test.py"@,
        r@[2]@ == "test_"@ + stem@ + ".rs"@,
{
    let mut a = String::from_str("test_");
    a.append(stem);
    a.append(".py");
    let mut b = String::from_str(stem);
    b.append("_test.py");
    let mut c = String::from_str("test_");
    c.append(stem);
    c.append(".rs");
    let mut out: Vec<String> = Vec::new();
    out.push(a);
    out.push(b);
    out.push(c);
    out
}

} // verus!
