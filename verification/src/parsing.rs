//! Extraction and validation of the structured blocks that agents emit:
//! `<plan>`, `<patch>`, `<error>` and `<finding>` tags inside free-form
//! text, CDATA unwrapping, and the safety rules for patch payload paths.

use vstd::prelude::*;
use crate::text::contains_sub;
use crate::text::ends_with;
use crate::text::ends_with_str;
use crate::text::find_char_at;
use crate::text::find_char_from;
use crate::text::find_from;
use crate::text::find_sub_at;
use crate::text::lemma_find_char_from;
use crate::text::str_eq;
use crate::text::ws_end_at;
use crate::text::ws_prefix_end;
use crate::text::ws_suffix_start;
use crate::text::has_sub;
use crate::text::is_space;
use crate::text::is_space_char;
use crate::text::lemma_find_from;
use crate::text::match_at;
use crate::text::split_lines;
use crate::text::split_lines_from;
use crate::text::starts_with;
use crate::text::starts_with_str;
use crate::text::trim_spec;
use crate::text::trim_str;

verus! {

/// Severity of a critic finding. `P0` means blocker or security issue,
/// `P3` a nitpick; anything unrecognized maps to `Unknown`.
#[derive(Debug, Clone, PartialEq, Eq, Structural)]
pub enum Severity {
    P0,
    P1,
    P2,
    P3,
    Unknown,
}

/// Severity denoted by `s`: the trimmed text compared to `P0`..`P3`,
/// ignoring the letter's case.
pub open spec fn spec_severity_of(s: Seq<char>) -> Severity {
    let t = trim_spec(s);
    if t.len() == 2 && (t[0] == 'P' || t[0] == 'p') {
        if t[1] == '0' {
            Severity::P0
        } else if t[1] == '1' {
            Severity::P1
        } else if t[1] == '2' {
            Severity::P2
        } else if t[1] == '3' {
            Severity::P3
        } else {
            Severity::Unknown
        }
    } else {
        Severity::Unknown
    }
}

impl Severity {
    /// Parses a severity label.
    pub fn from_str(s: &str) -> (r: Severity)
        ensures
            r == spec_severity_of(s@),
    {
        let t = trim_str(s);
        if t.unicode_len() == 2 {
            let c0 = t.get_char(0);
            let c1 = t.get_char(1);
            if c0 == 'P' || c0 == 'p' {
                if c1 == '0' {
                    Severity::P0
                } else if c1 == '1' {
                    Severity::P1
                } else if c1 == '2' {
                    Severity::P2
                } else if c1 == '3' {
                    Severity::P3
                } else {
                    Severity::Unknown
                }
            } else {
                Severity::Unknown
            }
        } else {
            Severity::Unknown
        }
    }
}

/// A path separator as the patch format understands it.
pub open spec fn is_sep(c: char) -> bool {
    c == '/' || c == '\\'
}

/// An ASCII letter.
pub open spec fn is_ascii_alpha(c: char) -> bool {
    (0x41 <= c as u32 && c as u32 <= 0x5A) || (0x61 <= c as u32 && c as u32 <= 0x7A)
}

/// `p`, split on either separator, has a `..` segment.
pub open spec fn has_dotdot_segment(p: Seq<char>) -> bool {
    exists|i: int|
        0 <= i && i + 2 <= p.len() && #[trigger] p[i] == '.' && p[i + 1] == '.' && (i == 0
            || is_sep(p[i - 1])) && (i + 2 == p.len() || is_sep(p[i + 2]))
}

/// A relative path that a patch may mention: non-empty, not absolute on
/// either separator convention, no drive prefix, and no `..` segment.
pub open spec fn path_is_safe(p: Seq<char>) -> bool {
    &&& p.len() > 0
    &&& !is_sep(p[0])
    &&& !(p.len() >= 2 && p[1] == ':' && is_ascii_alpha(p[0]))
    &&& !has_dotdot_segment(p)
}

/// The reason an unsafe path is rejected with.
pub open spec fn spec_path_error(p: Seq<char>) -> Seq<char> {
    if p.len() == 0 {
        "Found empty file path in patch"@
    } else if is_sep(p[0]) {
        "Absolute path detected: "@ + p
    } else if p.len() >= 2 && p[1] == ':' && is_ascii_alpha(p[0]) {
        "Absolute path detected (Windows drive): "@ + p
    } else {
        "Path traversal detected ('..'): "@ + p
    }
}

fn has_dotdot_exec(p: &str) -> (r: bool)
    ensures
        r == has_dotdot_segment(p@),
{
    let n = p.unicode_len();
    let mut i: usize = 0;
    while 2 <= n - i && i < n
        invariant
            0 <= i,
            i <= n,
            n == p@.len(),
            forall|j: int|
                0 <= j < i ==> !(j + 2 <= p@.len() && #[trigger] p@[j] == '.' && p@[j + 1] == '.'
                    && (j == 0 || is_sep(p@[j - 1])) && (j + 2 == p@.len() || is_sep(p@[j + 2]))),
        decreases n - i,
    {
        let dot0 = p.get_char(i) == '.';
        let dot1 = if dot0 {
            p.get_char(i + 1) == '.'
        } else {
            false
        };
        if dot0 && dot1 {
            let left_ok = if i == 0 {
                true
            } else {
                let c = p.get_char(i - 1);
                c == '/' || c == '\\'
            };
            let right_ok = if i + 2 == n {
                true
            } else {
                let c = p.get_char(i + 2);
                c == '/' || c == '\\'
            };
            if left_ok && right_ok {
                return true;
            }
        }
        i += 1;
    }
    assert forall|j: int| !(0 <= j && j + 2 <= p@.len() && #[trigger] p@[j] == '.' && p@[j + 1]
        == '.' && (j == 0 || is_sep(p@[j - 1])) && (j + 2 == p@.len() || is_sep(p@[j + 2]))) by {
        if 0 <= j && j + 2 <= p@.len() {
            assert(j < i);
        }
    }
    false
}

/// Rejects an empty, absolute, drive-prefixed or traversing path.
pub fn validate_patch_path(path: &str) -> (r: Result<(), String>)
    ensures
        r is Ok <==> path_is_safe(path@),
        r is Err ==> r->Err_0@ == spec_path_error(path@),
{
    let n = path.unicode_len();
    if n == 0 {
        return Err(String::from_str("Found empty file path in patch"));
    }
    let c0 = path.get_char(0);
    if c0 == '/' || c0 == '\\' {
        let mut msg = String::from_str("Absolute path detected: ");
        msg.append(path);
        return Err(msg);
    }
    let drive = if n >= 2 {
        let c1 = path.get_char(1);
        let alpha = (0x41 <= c0 as u32 && c0 as u32 <= 0x5A) || (0x61 <= c0 as u32 && c0 as u32
            <= 0x7A);
        c1 == ':' && alpha
    } else {
        false
    };
    if drive {
        let mut msg = String::from_str("Absolute path detected (Windows drive): ");
        msg.append(path);
        return Err(msg);
    }
    if has_dotdot_exec(path) {
        let mut msg = String::from_str("Path traversal detected ('..'): ");
        msg.append(path);
        return Err(msg);
    }
    Ok(())
}

/// The path named by a patch file header, when the trimmed line is one.
pub open spec fn spec_header_path(line: Seq<char>) -> Option<Seq<char>> {
    let t = trim_spec(line);
    if starts_with(t, "*** Add File: "@) {
        Some(t.subrange(("*** Add File: "@).len() as int, t.len() as int))
    } else if starts_with(t, "*** Update File: "@) {
        Some(t.subrange(("*** Update File: "@).len() as int, t.len() as int))
    } else if starts_with(t, "*** Delete File: "@) {
        Some(t.subrange(("*** Delete File: "@).len() as int, t.len() as int))
    } else if starts_with(t, "*** Move to: "@) {
        Some(t.subrange(("*** Move to: "@).len() as int, t.len() as int))
    } else {
        None
    }
}

/// The line carries no file header, or the path it names is safe.
pub open spec fn line_path_ok(line: Seq<char>) -> bool {
    match spec_header_path(line) {
        Some(p) => path_is_safe(trim_spec(p)),
        None => true,
    }
}

/// Every file header anywhere in the patch names a safe path.
pub open spec fn patch_paths_ok(patch: Seq<char>) -> bool {
    forall|k: int|
        0 <= k < split_lines_from(patch, 0).len() ==> line_path_ok(
            #[trigger] split_lines_from(patch, 0)[k],
        )
}

fn header_path_of_line<'a>(line: &'a str) -> (r: Option<&'a str>)
    ensures
        match r {
            Some(p) => spec_header_path(line@) == Some(p@),
            None => spec_header_path(line@) is None,
        },
{
    let t = trim_str(line);
    let n = t.unicode_len();
    if starts_with_str(t, "*** Add File: ") {
        let m = "*** Add File: ".unicode_len();
        Some(t.substring_char(m, n))
    } else if starts_with_str(t, "*** Update File: ") {
        let m = "*** Update File: ".unicode_len();
        Some(t.substring_char(m, n))
    } else if starts_with_str(t, "*** Delete File: ") {
        let m = "*** Delete File: ".unicode_len();
        Some(t.substring_char(m, n))
    } else if starts_with_str(t, "*** Move to: ") {
        let m = "*** Move to: ".unicode_len();
        Some(t.substring_char(m, n))
    } else {
        None
    }
}

/// Scans every `*** Add File:`, `*** Update File:`, `*** Delete File:` and
/// `*** Move to:` header of the patch and rejects the first unsafe path.
pub fn validate_patch_paths(patch: &str) -> (r: Result<(), String>)
    ensures
        r is Ok <==> patch_paths_ok(patch@),
        r is Err ==> exists|k: int|
            0 <= k < split_lines_from(patch@, 0).len() && !line_path_ok(
                #[trigger] split_lines_from(patch@, 0)[k],
            ) && r->Err_0@ == spec_path_error(
                trim_spec(spec_header_path(split_lines_from(patch@, 0)[k])->Some_0),
            ),
{
    let lines = split_lines(patch);
    let mut k: usize = 0;
    while k < lines.len()
        invariant
            0 <= k <= lines@.len(),
            lines@.len() == split_lines_from(patch@, 0).len(),
            forall|t: int| 0 <= t < lines@.len() ==> lines@[t]@ == split_lines_from(patch@, 0)[t],
            forall|t: int| 0 <= t < k ==> line_path_ok(#[trigger] split_lines_from(patch@, 0)[t]),
        decreases lines@.len() - k,
    {
        match header_path_of_line(lines[k].as_str()) {
            None => {},
            Some(p) => {
                let pt = trim_str(p);
                match validate_patch_path(pt) {
                    Ok(()) => {},
                    Err(e) => {
                        proof {
                            assert(!line_path_ok(split_lines_from(patch@, 0)[k as int]));
                        }
                        return Err(e);
                    },
                }
            },
        }
        k += 1;
    }
    Ok(())
}

/// Some occurrence of the header in `t` is immediately followed by a
/// Windows drive prefix: an ASCII letter and a colon.
pub open spec fn header_has_drive(t: Seq<char>, header: Seq<char>) -> bool {
    exists|i: int|
        #[trigger] match_at(t, header, i) && i + header.len() + 2 <= t.len() && is_ascii_alpha(
            t[i + header.len()],
        ) && t[i + header.len() + 1] == ':'
}

fn contains_header_drive(t: &str, header: &str) -> (r: bool)
    requires
        header@.len() >= 1,
    ensures
        r == header_has_drive(t@, header@),
{
    let n = t.unicode_len();
    let m = header.unicode_len();
    let mut cur: usize = 0;
    loop
        invariant
            0 <= cur <= n,
            n == t@.len(),
            m == header@.len(),
            m >= 1,
            forall|i: int|
                0 <= i < cur ==> !(#[trigger] match_at(t@, header@, i) && i + m + 2 <= n
                    && is_ascii_alpha(t@[i + m]) && t@[i + m + 1] == ':'),
        decreases n - cur,
    {
        proof {
            lemma_find_from(t@, header@, cur as int);
        }
        match find_sub_at(t, header, cur) {
            None => {
                assert forall|i: int|
                    !(#[trigger] match_at(t@, header@, i) && i + m + 2 <= n && is_ascii_alpha(
                        t@[i + m],
                    ) && t@[i + m + 1] == ':') by {
                    if 0 <= i && match_at(t@, header@, i) {
                        assert(i < cur);
                    }
                }
                return false;
            },
            Some(o) => {
                if 2 <= n - (o + m) {
                    let c0 = t.get_char(o + m);
                    let c1 = t.get_char(o + m + 1);
                    let alpha = (0x41 <= c0 as u32 && c0 as u32 <= 0x5A) || (0x61 <= c0 as u32 && c0
                        as u32 <= 0x7A);
                    if alpha && c1 == ':' {
                        assert(header_has_drive(t@, header@));
                        return true;
                    }
                }
                cur = o + 1;
            },
        }
    }
}

/// The patch payload carries the begin and end markers, names at least one
/// file operation, and none of its file headers starts an absolute path:
/// neither separator, nor a Windows drive prefix.
pub open spec fn spec_looks_like_apply_patch(p: Seq<char>) -> bool {
    let t = trim_spec(p);
    &&& has_sub(t, "*** Begin Patch"@)
    &&& has_sub(t, "*** End Patch"@)
    &&& (has_sub(t, "*** Add File:"@) || has_sub(t, "*** Update File:"@) || has_sub(
        t,
        "*** Delete File:"@,
    ))
    &&& !has_sub(t, "*** Add File: /"@)
    &&& !has_sub(t, "*** Update File: /"@)
    &&& !has_sub(t, "*** Delete File: /"@)
    &&& !has_sub(t, "*** Add File: \\"@)
    &&& !has_sub(t, "*** Update File: \\"@)
    &&& !has_sub(t, "*** Delete File: \\"@)
    &&& !header_has_drive(t, "*** Add File: "@)
    &&& !header_has_drive(t, "*** Update File: "@)
    &&& !header_has_drive(t, "*** Delete File: "@)
}

/// Checks the shape of an apply-patch payload.
pub fn looks_like_apply_patch(patch: &str) -> (r: bool)
    ensures
        r == spec_looks_like_apply_patch(patch@),
{
    let t = trim_str(patch);
    if !contains_sub(t, "*** Begin Patch") || !contains_sub(t, "*** End Patch") {
        return false;
    }
    if !(contains_sub(t, "*** Add File:") || contains_sub(t, "*** Update File:") || contains_sub(
        t,
        "*** Delete File:",
    )) {
        return false;
    }
    if contains_sub(t, "*** Add File: /") || contains_sub(t, "*** Update File: /") || contains_sub(
        t,
        "*** Delete File: /",
    ) {
        return false;
    }
    if contains_sub(t, "*** Add File: \\") || contains_sub(t, "*** Update File: \\")
        || contains_sub(t, "*** Delete File: \\") {
        return false;
    }
    proof {
        reveal_strlit("*** Add File: ");
        reveal_strlit("*** Update File: ");
        reveal_strlit("*** Delete File: ");
    }
    if contains_header_drive(t, "*** Add File: ") || contains_header_drive(t, "*** Update File: ")
        || contains_header_drive(t, "*** Delete File: ") {
        return false;
    }
    true
}

/// Body of the first `<tag ...>` ... `</tag>` block of `text`: the text
/// between the first `>` after the first `<tag` and the next `</tag>`.
pub open spec fn spec_first_block(text: Seq<char>, tag: Seq<char>) -> Option<Seq<char>> {
    match find_from(text, "<"@ + tag, 0) {
        None => None,
        Some(o) => match find_from(text, ">"@, o) {
            None => None,
            Some(g) => match find_from(text, "</"@ + tag + ">"@, g + 1) {
                None => None,
                Some(c) => Some(text.subrange(g + 1, c)),
            },
        },
    }
}

/// Finds the first `<tag ...>` ... `</tag>` block, ignoring surrounding text.
pub fn extract_first_block(text: &str, tag: &str) -> (r: Option<String>)
    ensures
        match r {
            Some(b) => spec_first_block(text@, tag@) == Some(b@),
            None => spec_first_block(text@, tag@) is None,
        },
{
    let n = text.unicode_len();
    let mut open_pat = String::from_str("<");
    open_pat.append(tag);
    let mut close_pat = String::from_str("</");
    close_pat.append(tag);
    close_pat.append(">");
    proof {
        lemma_find_from(text@, "<"@ + tag@, 0);
    }
    let o = match find_sub_at(text, open_pat.as_str(), 0) {
        None => {
            return None;
        },
        Some(o) => o,
    };
    proof {
        lemma_find_from(text@, ">"@, o as int);
        reveal_strlit(">");
    }
    let g = match find_sub_at(text, ">", o) {
        None => {
            return None;
        },
        Some(g) => g,
    };
    proof {
        lemma_find_from(text@, "</"@ + tag@ + ">"@, g + 1);
    }
    let c = match find_sub_at(text, close_pat.as_str(), g + 1) {
        None => {
            return None;
        },
        Some(c) => c,
    };
    Some(String::from_str(text.substring_char(g + 1, c)))
}

/// Whether the trimmed text is bookended by a CDATA wrapper.
pub open spec fn spec_cdata_wrapped(s: Seq<char>) -> bool {
    let t = trim_spec(s);
    starts_with(t, "<![CDATA["@) && ends_with(
        t.subrange(("<![CDATA["@).len() as int, t.len() as int),
        "]]>"@,
    )
}

/// `s` with one bookending CDATA wrapper removed, after trimming;
/// `s` itself when the trimmed text is not wrapped.
pub open spec fn spec_unwrap_cdata(s: Seq<char>) -> Seq<char> {
    let t = trim_spec(s);
    if spec_cdata_wrapped(s) {
        t.subrange(("<![CDATA["@).len() as int, t.len() - ("]]>"@).len())
    } else {
        s
    }
}

/// Removes a bookending `<![CDATA[` ... `]]>` wrapper, once.
pub fn unwrap_cdata(s: String) -> (r: String)
    ensures
        r@ == spec_unwrap_cdata(s@),
{
    let t = trim_str(s.as_str());
    if starts_with_str(t, "<![CDATA[") {
        let np = "<![CDATA[".unicode_len();
        let n = t.unicode_len();
        let rest = t.substring_char(np, n);
        if ends_with_str(rest, "]]>") {
            let ns = "]]>".unicode_len();
            let inner = rest.substring_char(0, rest.unicode_len() - ns);
            let r = String::from_str(inner);
            assert(r@ =~= spec_unwrap_cdata(s@));
            return r;
        }
    }
    s
}

/// The patch payload of `text`: the first `<patch>` block, with a
/// bookending CDATA wrapper removed.
pub open spec fn spec_extract_patch(text: Seq<char>) -> Option<Seq<char>> {
    match spec_first_block(text, "patch"@) {
        None => None,
        Some(b) => Some(spec_unwrap_cdata(b)),
    }
}

/// Extracts patch content, automatically unwrapping a CDATA bookend.
pub fn extract_patch(text: &str) -> (r: Option<String>)
    ensures
        match r {
            Some(p) => spec_extract_patch(text@) == Some(p@),
            None => spec_extract_patch(text@) is None,
        },
{
    match extract_first_block(text, "patch") {
        None => None,
        Some(body) => Some(unwrap_cdata(body)),
    }
}

/// The plan of `text`: the first `<plan>` block, trimmed.
pub open spec fn spec_extract_plan(text: Seq<char>) -> Option<Seq<char>> {
    match spec_first_block(text, "plan"@) {
        None => None,
        Some(b) => Some(trim_spec(b)),
    }
}

/// Extracts plan content.
pub fn extract_plan(text: &str) -> (r: Option<String>)
    ensures
        match r {
            Some(p) => spec_extract_plan(text@) == Some(p@),
            None => spec_extract_plan(text@) is None,
        },
{
    match extract_first_block(text, "plan") {
        None => None,
        Some(body) => Some(String::from_str(trim_str(body.as_str()))),
    }
}

/// The error report of `text`: the first `<error>` block, trimmed.
pub open spec fn spec_extract_error(text: Seq<char>) -> Option<Seq<char>> {
    match spec_first_block(text, "error"@) {
        None => None,
        Some(b) => Some(trim_spec(b)),
    }
}

/// Extracts error content.
pub fn extract_error(text: &str) -> (r: Option<String>)
    ensures
        match r {
            Some(p) => spec_extract_error(text@) == Some(p@),
            None => spec_extract_error(text@) is None,
        },
{
    match extract_first_block(text, "error") {
        None => None,
        Some(body) => Some(String::from_str(trim_str(body.as_str()))),
    }
}

/// An attribute map as a key-value list: the mathematical view of the
/// `attrs` field of a `Finding`.
pub type AttrsView = Seq<(Seq<char>, Seq<char>)>;

/// Position of the first entry with key `k`.
pub open spec fn attrs_key_idx(m: AttrsView, k: Seq<char>) -> Option<int>
    decreases m.len(),
{
    if m.len() == 0 {
        None
    } else if m[0].0 == k {
        Some(0)
    } else {
        match attrs_key_idx(m.drop_first(), k) {
            None => None,
            Some(i) => Some(i + 1),
        }
    }
}

pub proof fn lemma_attrs_key_idx(m: AttrsView, k: Seq<char>)
    ensures
        match attrs_key_idx(m, k) {
            Some(i) => 0 <= i < m.len() && m[i].0 == k && forall|j: int|
                0 <= j < i ==> (#[trigger] m[j]).0 != k,
            None => forall|j: int| 0 <= j < m.len() ==> (#[trigger] m[j]).0 != k,
        },
    decreases m.len(),
{
    if m.len() > 0 && m[0].0 != k {
        lemma_attrs_key_idx(m.drop_first(), k);
        assert forall|j: int| 1 <= j < m.len() implies (#[trigger] m[j]).0 == m.drop_first()[j
            - 1].0 by {}
    }
}

/// Value of the first entry with key `k`.
pub open spec fn spec_attrs_get(m: AttrsView, k: Seq<char>) -> Option<Seq<char>> {
    match attrs_key_idx(m, k) {
        None => None,
        Some(i) => Some(m[i].1),
    }
}

/// Value of the first entry with key `k`, or the empty text.
pub open spec fn spec_attrs_get_or_empty(m: AttrsView, k: Seq<char>) -> Seq<char> {
    match spec_attrs_get(m, k) {
        None => Seq::empty(),
        Some(v) => v,
    }
}

/// `m` with the entry for `k` replaced by `v`, or `(k, v)` appended.
pub open spec fn spec_attrs_put(m: AttrsView, k: Seq<char>, v: Seq<char>) -> AttrsView {
    match attrs_key_idx(m, k) {
        None => m.push((k, v)),
        Some(i) => m.update(i, (k, v)),
    }
}

/// The view of an attribute list held as owned strings.
pub open spec fn attrs_view(m: Seq<(String, String)>) -> AttrsView {
    m.map_values(|p: (String, String)| (p.0@, p.1@))
}

/// Looks up the value stored under `k`.
pub fn attrs_get<'a>(m: &'a Vec<(String, String)>, k: &str) -> (r: Option<&'a String>)
    ensures
        match r {
            Some(v) => spec_attrs_get(attrs_view(m@), k@) == Some(v@),
            None => spec_attrs_get(attrs_view(m@), k@) is None,
        },
{
    proof {
        lemma_attrs_key_idx(attrs_view(m@), k@);
    }
    let mut i: usize = 0;
    while i < m.len()
        invariant
            0 <= i <= m@.len(),
            forall|j: int| 0 <= j < i ==> (#[trigger] attrs_view(m@)[j]).0 != k@,
        decreases m@.len() - i,
    {
        if str_eq(m[i].0.as_str(), k) {
            proof {
                lemma_attrs_key_idx(attrs_view(m@), k@);
                assert((attrs_view(m@)[i as int]).0 == k@);
            }
            return Some(&m[i].1);
        }
        assert((attrs_view(m@)[i as int]).0 != k@);
        i += 1;
    }
    proof {
        lemma_attrs_key_idx(attrs_view(m@), k@);
    }
    None
}

/// Stores `v` under `k`, replacing an earlier entry for `k` in place.
fn attrs_put(m: &mut Vec<(String, String)>, k: String, v: String)
    ensures
        attrs_view(final(m)@) == spec_attrs_put(attrs_view(old(m)@), k@, v@),
{
    proof {
        lemma_attrs_key_idx(attrs_view(m@), k@);
    }
    let mut i: usize = 0;
    while i < m.len()
        invariant
            0 <= i <= m@.len(),
            m@ == old(m)@,
            forall|j: int| 0 <= j < i ==> (#[trigger] attrs_view(m@)[j]).0 != k@,
        decreases m@.len() - i,
    {
        if str_eq(m[i].0.as_str(), k.as_str()) {
            proof {
                lemma_attrs_key_idx(attrs_view(m@), k@);
                assert((attrs_view(m@)[i as int]).0 == k@);
            }
            let _ = m.remove(i);
            m.insert(i, (k, v));
            proof {
                assert(attrs_view(m@) =~= spec_attrs_put(attrs_view(old(m)@), k@, v@));
            }
            return ;
        }
        assert((attrs_view(m@)[i as int]).0 != k@);
        i += 1;
    }
    proof {
        lemma_attrs_key_idx(attrs_view(m@), k@);
    }
    m.push((k, v));
    proof {
        assert(attrs_view(m@) =~= spec_attrs_put(attrs_view(old(m)@), k@, v@));
    }
}

/// First position at or after `i` where the tag name ends: whitespace
/// or `>`.
pub open spec fn tag_name_end(s: Seq<char>, i: int) -> int
    decreases s.len() - i when 0 <= i <= s.len()
{
    if i == s.len() {
        i
    } else if is_space(s[i]) || s[i] == '>' {
        i
    } else {
        tag_name_end(s, i + 1)
    }
}

/// First position at or after `i` that ends an attribute key: `=`,
/// whitespace or `>`.
pub open spec fn key_end(s: Seq<char>, i: int) -> int
    decreases s.len() - i when 0 <= i <= s.len()
{
    if i == s.len() {
        i
    } else if s[i] == '=' || is_space(s[i]) || s[i] == '>' {
        i
    } else {
        key_end(s, i + 1)
    }
}

/// First position at or after `i` that ends an unquoted value:
/// whitespace or `>`.
pub open spec fn unquoted_end(s: Seq<char>, i: int) -> int
    decreases s.len() - i when 0 <= i <= s.len()
{
    if i == s.len() {
        i
    } else if is_space(s[i]) || s[i] == '>' {
        i
    } else {
        unquoted_end(s, i + 1)
    }
}

proof fn lemma_scan_bounds(s: Seq<char>, i: int)
    requires
        0 <= i <= s.len(),
    ensures
        i <= tag_name_end(s, i) <= s.len(),
        i <= key_end(s, i) <= s.len(),
        i <= unquoted_end(s, i) <= s.len(),
        i <= ws_prefix_end(s, i) <= s.len(),
    decreases s.len() - i,
{
    if i < s.len() {
        lemma_scan_bounds(s, i + 1);
    }
}

/// The attributes read from position `i` of the opening tag `s`, appended
/// to `acc`: skip whitespace, stop at `>` or at a missing key, read a key
/// up to `=`, whitespace or `>`, then a value that is quoted with `"` or
/// `'`, unquoted, or absent.
pub open spec fn spec_attrs_loop(s: Seq<char>, i: int, acc: AttrsView) -> AttrsView
    decreases s.len() - i when 0 <= i <= s.len() via spec_attrs_loop_decreases
{
    let w = ws_prefix_end(s, i);
    if w == s.len() || s[w] == '>' {
        acc
    } else {
        let ke = key_end(s, w);
        if ke == w {
            acc
        } else {
            let key = s.subrange(w, ke);
            let p = ws_prefix_end(s, ke);
            if !(p < s.len() && s[p] == '=') {
                spec_attrs_loop(s, p, spec_attrs_put(acc, key, Seq::empty()))
            } else {
                let v0 = ws_prefix_end(s, p + 1);
                if v0 == s.len() {
                    spec_attrs_loop(s, v0, spec_attrs_put(acc, key, Seq::empty()))
                } else if s[v0] == '"' || s[v0] == '\'' {
                    let q = s[v0];
                    match find_char_from(s, q, v0 + 1) {
                        None => spec_attrs_loop(
                            s,
                            s.len() as int,
                            spec_attrs_put(acc, key, s.subrange(v0 + 1, s.len() as int)),
                        ),
                        Some(j) => {
                            let after = if j + 1 < s.len() && s[j + 1] == q {
                                j + 2
                            } else {
                                j + 1
                            };
                            spec_attrs_loop(s, after, spec_attrs_put(acc, key, s.subrange(v0 + 1, j)))
                        },
                    }
                } else {
                    let ue = unquoted_end(s, v0);
                    spec_attrs_loop(s, ue, spec_attrs_put(acc, key, s.subrange(v0, ue)))
                }
            }
        }
    }
}

#[via_fn]
proof fn spec_attrs_loop_decreases(s: Seq<char>, i: int, acc: AttrsView) {
    lemma_scan_bounds(s, i);
    let w = ws_prefix_end(s, i);
    if !(w == s.len() || s[w] == '>') {
        lemma_scan_bounds(s, w);
        let ke = key_end(s, w);
        if ke != w {
            lemma_scan_bounds(s, ke);
            let p = ws_prefix_end(s, ke);
            if p < s.len() && s[p] == '=' {
                lemma_scan_bounds(s, p + 1);
                let v0 = ws_prefix_end(s, p + 1);
                if v0 < s.len() && (s[v0] == '"' || s[v0] == '\'') {
                    lemma_find_char_from(s, s[v0], v0 + 1);
                } else if v0 < s.len() {
                    lemma_scan_bounds(s, v0);
                }
            }
        }
    }
}

/// The attributes of the opening tag `s`: the tag name is skipped, then
/// key-value pairs are read until `>` or the end of the text.
pub open spec fn spec_parse_attrs(s: Seq<char>) -> AttrsView {
    let j = tag_name_end(s, 0);
    if j == s.len() || s[j] == '>' {
        Seq::empty()
    } else {
        spec_attrs_loop(s, j + 1, Seq::empty())
    }
}

fn tag_name_end_exec(s: &str, from: usize) -> (r: usize)
    requires
        from <= s@.len(),
    ensures
        r == tag_name_end(s@, from as int),
        from <= r <= s@.len(),
{
    let n = s.unicode_len();
    let mut i = from;
    while i < n && !(is_space_char(s.get_char(i)) || s.get_char(i) == '>')
        invariant
            from <= i <= n,
            n == s@.len(),
            tag_name_end(s@, from as int) == tag_name_end(s@, i as int),
        decreases n - i,
    {
        i += 1;
    }
    i
}

fn key_end_exec(s: &str, from: usize) -> (r: usize)
    requires
        from <= s@.len(),
    ensures
        r == key_end(s@, from as int),
        from <= r <= s@.len(),
{
    let n = s.unicode_len();
    let mut i = from;
    while i < n && !(s.get_char(i) == '=' || is_space_char(s.get_char(i)) || s.get_char(i) == '>')
        invariant
            from <= i <= n,
            n == s@.len(),
            key_end(s@, from as int) == key_end(s@, i as int),
        decreases n - i,
    {
        i += 1;
    }
    i
}

fn unquoted_end_exec(s: &str, from: usize) -> (r: usize)
    requires
        from <= s@.len(),
    ensures
        r == unquoted_end(s@, from as int),
        from <= r <= s@.len(),
{
    let n = s.unicode_len();
    let mut i = from;
    while i < n && !(is_space_char(s.get_char(i)) || s.get_char(i) == '>')
        invariant
            from <= i <= n,
            n == s@.len(),
            unquoted_end(s@, from as int) == unquoted_end(s@, i as int),
        decreases n - i,
    {
        i += 1;
    }
    i
}

/// Reads the attributes of an opening tag such as
/// `<finding severity="P0" type='bug' checked>`: keys up to `=`,
/// whitespace or `>`; values quoted with either quote, unquoted, or
/// absent for boolean attributes.
pub fn parse_attrs(open_tag: &str) -> (r: Vec<(String, String)>)
    ensures
        attrs_view(r@) == spec_parse_attrs(open_tag@),
{
    let s = open_tag;
    let n = s.unicode_len();
    let mut acc: Vec<(String, String)> = Vec::new();
    proof {
        assert(attrs_view(acc@) =~= Seq::<(Seq<char>, Seq<char>)>::empty());
    }
    let j = tag_name_end_exec(s, 0);
    if j == n {
        assert(spec_parse_attrs(s@) == Seq::<(Seq<char>, Seq<char>)>::empty());
        return acc;
    }
    if s.get_char(j) == '>' {
        assert(spec_parse_attrs(s@) == Seq::<(Seq<char>, Seq<char>)>::empty());
        return acc;
    }
    let mut i: usize = j + 1;
    loop
        invariant
            0 <= i <= n,
            n == s@.len(),
            s@ == open_tag@,
            spec_parse_attrs(s@) == spec_attrs_loop(s@, i as int, attrs_view(acc@)),
        decreases n - i,
    {
        let ghost acc0 = attrs_view(acc@);
        let w = ws_end_at(s, i);
        if w == n {
            proof {
                assert(spec_attrs_loop(s@, i as int, acc0) == acc0);
            }
            return acc;
        }
        if s.get_char(w) == '>' {
            proof {
                assert(spec_attrs_loop(s@, i as int, acc0) == acc0);
            }
            return acc;
        }
        let ke = key_end_exec(s, w);
        if ke == w {
            proof {
                assert(spec_attrs_loop(s@, i as int, acc0) == acc0);
            }
            return acc;
        }
        let key = String::from_str(s.substring_char(w, ke));
        let p = ws_end_at(s, ke);
        let found_eq = if p < n {
            s.get_char(p) == '='
        } else {
            false
        };
        if !found_eq {
            let ghost key_v = key@;
            attrs_put(&mut acc, key, String::new());
            proof {
                assert(spec_attrs_loop(s@, i as int, acc0) == spec_attrs_loop(
                    s@,
                    p as int,
                    spec_attrs_put(acc0, key_v, Seq::empty()),
                ));
            }
            i = p;
            continue ;
        }
        let v0 = ws_end_at(s, p + 1);
        if v0 == n {
            let ghost key_v = key@;
            attrs_put(&mut acc, key, String::new());
            proof {
                assert(spec_attrs_loop(s@, i as int, acc0) == spec_attrs_loop(
                    s@,
                    v0 as int,
                    spec_attrs_put(acc0, key_v, Seq::empty()),
                ));
            }
            i = v0;
            continue ;
        }
        let q = s.get_char(v0);
        if q == '"' || q == '\'' {
            proof {
                lemma_find_char_from(s@, q, v0 + 1);
            }
            match find_char_at(s, q, v0 + 1) {
                None => {
                    let ghost key_v = key@;
                    let val = String::from_str(s.substring_char(v0 + 1, n));
                    let ghost val_v = val@;
                    attrs_put(&mut acc, key, val);
                    proof {
                        assert(spec_attrs_loop(s@, i as int, acc0) == spec_attrs_loop(
                            s@,
                            n as int,
                            spec_attrs_put(acc0, key_v, val_v),
                        ));
                    }
                    i = n;
                },
                Some(jq) => {
                    let after = if jq + 1 < n && s.get_char(jq + 1) == q {
                        jq + 2
                    } else {
                        jq + 1
                    };
                    let ghost key_v = key@;
                    let val = String::from_str(s.substring_char(v0 + 1, jq));
                    let ghost val_v = val@;
                    attrs_put(&mut acc, key, val);
                    proof {
                        assert(spec_attrs_loop(s@, i as int, acc0) == spec_attrs_loop(
                            s@,
                            after as int,
                            spec_attrs_put(acc0, key_v, val_v),
                        ));
                    }
                    i = after;
                },
            }
        } else {
            let ue = unquoted_end_exec(s, v0);
            let ghost key_v = key@;
            let val = String::from_str(s.substring_char(v0, ue));
            let ghost val_v = val@;
            attrs_put(&mut acc, key, val);
            proof {
                assert(spec_attrs_loop(s@, i as int, acc0) == spec_attrs_loop(
                    s@,
                    ue as int,
                    spec_attrs_put(acc0, key_v, val_v),
                ));
            }
            i = ue;
        }
    }
}

/// The mathematical view of a `Finding`.
pub struct FindingView {
    pub severity: Severity,
    pub body: Seq<char>,
    pub attrs: AttrsView,
}

/// A single critic observation: its severity, the text between the tags,
/// and the opening tag's attributes.
#[derive(Debug, Clone, PartialEq, Eq)]
pub struct Finding {
    pub severity: Severity,
    pub body: String,
    pub attrs: Vec<(String, String)>,
}

impl View for Finding {
    type V = FindingView;

    open spec fn view(&self) -> FindingView {
        FindingView {
            severity: self.severity,
            body: self.body@,
            attrs: attrs_view(self.attrs@),
        }
    }
}

/// The views of a list of findings.
pub open spec fn findings_view(v: Seq<Finding>) -> Seq<FindingView> {
    v.map_values(|f: Finding| f@)
}

/// The findings read from position `cursor` of `text`, appended to `acc`:
/// for each `<finding` with a closing `>` and a following `</finding>`,
/// one finding whose severity comes from the `severity` attribute and
/// whose body is the trimmed text between the tags.
pub open spec fn spec_findings_loop(text: Seq<char>, cursor: int, acc: Seq<FindingView>) -> Seq<
    FindingView,
>
    decreases text.len() - cursor when 0 <= cursor <= text.len() via spec_findings_loop_decreases
{
    match find_from(text, "<finding"@, cursor) {
        None => acc,
        Some(o) => match find_from(text, ">"@, o) {
            None => acc,
            Some(g) => {
                let attrs = spec_parse_attrs(text.subrange(o, g + 1));
                let severity = spec_severity_of(spec_attrs_get_or_empty(attrs, "severity"@));
                match find_from(text, "</finding>"@, g + 1) {
                    None => acc,
                    Some(c) => spec_findings_loop(
                        text,
                        c + ("</finding>"@).len(),
                        acc.push(
                            FindingView {
                                severity,
                                body: trim_spec(text.subrange(g + 1, c)),
                                attrs,
                            },
                        ),
                    ),
                }
            },
        },
    }
}

#[via_fn]
proof fn spec_findings_loop_decreases(text: Seq<char>, cursor: int, acc: Seq<FindingView>) {
    lemma_find_from(text, "<finding"@, cursor);
    if find_from(text, "<finding"@, cursor) is Some {
        let o = find_from(text, "<finding"@, cursor)->Some_0;
        lemma_find_from(text, ">"@, o);
        if find_from(text, ">"@, o) is Some {
            let g = find_from(text, ">"@, o)->Some_0;
            reveal_strlit(">");
            reveal_strlit("<finding");
            lemma_find_from(text, "</finding>"@, g + 1);
        }
    }
}

/// All findings of `text`.
pub open spec fn spec_extract_findings(text: Seq<char>) -> Seq<FindingView> {
    spec_findings_loop(text, 0, Seq::empty())
}

/// Extracts every `<finding ...>` ... `</finding>` block of `text`,
/// tolerating surrounding prose.
pub fn extract_findings(text: &str) -> (r: Vec<Finding>)
    ensures
        findings_view(r@) == spec_extract_findings(text@),
{
    let n = text.unicode_len();
    let mut out: Vec<Finding> = Vec::new();
    let mut cur: usize = 0;
    proof {
        assert(findings_view(out@) =~= Seq::<FindingView>::empty());
    }
    loop
        invariant
            0 <= cur <= n,
            n == text@.len(),
            spec_extract_findings(text@) == spec_findings_loop(
                text@,
                cur as int,
                findings_view(out@),
            ),
        decreases n - cur,
    {
        let ghost acc0 = findings_view(out@);
        proof {
            lemma_find_from(text@, "<finding"@, cur as int);
        }
        let o = match find_sub_at(text, "<finding", cur) {
            None => {
                return out;
            },
            Some(o) => o,
        };
        proof {
            lemma_find_from(text@, ">"@, o as int);
            reveal_strlit(">");
            reveal_strlit("<finding");
        }
        let g = match find_sub_at(text, ">", o) {
            None => {
                return out;
            },
            Some(g) => g,
        };
        let open_tag = text.substring_char(o, g + 1);
        let attrs = parse_attrs(open_tag);
        let sev_text = match attrs_get(&attrs, "severity") {
            Some(v) => v.clone(),
            None => String::new(),
        };
        let severity = Severity::from_str(sev_text.as_str());
        proof {
            lemma_find_from(text@, "</finding>"@, g + 1);
        }
        let c = match find_sub_at(text, "</finding>", g + 1) {
            None => {
                return out;
            },
            Some(c) => c,
        };
        let body = String::from_str(trim_str(text.substring_char(g + 1, c)));
        let ghost fv = FindingView { severity, body: body@, attrs: attrs_view(attrs@) };
        out.push(Finding { severity, body, attrs });
        proof {
            assert(findings_view(out@) =~= acc0.push(fv));
            reveal_strlit("</finding>");
        }
        cur = c + "</finding>".unicode_len();
    }
}

/// A match inside a subrange of `s` is a match inside `s`.
proof fn lemma_match_at_subrange(s: Seq<char>, a: int, b: int, pat: Seq<char>, i: int)
    requires
        0 <= a <= b <= s.len(),
        match_at(s.subrange(a, b), pat, i),
    ensures
        match_at(s, pat, a + i),
{
    assert(s.subrange(a, b).subrange(i, i + pat.len() as int) =~= s.subrange(
        a + i,
        a + i + pat.len() as int,
    ));
}

/// Trimming cannot introduce an occurrence of a pattern.
proof fn lemma_no_sub_trim(s: Seq<char>, pat: Seq<char>)
    requires
        !has_sub(s, pat),
        pat.len() > 0,
    ensures
        !has_sub(trim_spec(s), pat),
{
    crate::text::lemma_ws_prefix_end(s, 0);
    crate::text::lemma_ws_suffix_start(s, s.len() as int);
    let a = ws_prefix_end(s, 0);
    let b = ws_suffix_start(s, s.len() as int);
    if a < b {
        if has_sub(trim_spec(s), pat) {
            let i = choose|i: int| match_at(trim_spec(s), pat, i);
            lemma_match_at_subrange(s, a, b, pat, i);
        }
    }
}

/// A text without a closing finding tag yields no findings.
pub proof fn lemma_findings_without_close(t: Seq<char>)
    requires
        !has_sub(t, "</finding>"@),
    ensures
        spec_extract_findings(t) == Seq::<FindingView>::empty(),
{
    lemma_find_from(t, "<finding"@, 0);
    if find_from(t, "<finding"@, 0) is Some {
        let o = find_from(t, "<finding"@, 0)->Some_0;
        lemma_find_from(t, ">"@, o);
        if find_from(t, ">"@, o) is Some {
            let g = find_from(t, ">"@, o)->Some_0;
            reveal_strlit(">");
            lemma_find_from(t, "</finding>"@, g + 1);
            if find_from(t, "</finding>"@, g + 1) is Some {
                let c = find_from(t, "</finding>"@, g + 1)->Some_0;
                assert(match_at(t, "</finding>"@, c));
            }
        }
    }
}

proof fn lemma_findings_loop_bodies(text: Seq<char>, cursor: int, acc: Seq<FindingView>)
    requires
        0 <= cursor <= text.len(),
        forall|k: int| 0 <= k < acc.len() ==> !has_sub((#[trigger] acc[k]).body, "</finding>"@),
    ensures
        forall|k: int|
            0 <= k < spec_findings_loop(text, cursor, acc).len() ==> !has_sub(
                (#[trigger] spec_findings_loop(text, cursor, acc)[k]).body,
                "</finding>"@,
            ),
    decreases text.len() - cursor,
{
    lemma_find_from(text, "<finding"@, cursor);
    if find_from(text, "<finding"@, cursor) is Some {
        let o = find_from(text, "<finding"@, cursor)->Some_0;
        lemma_find_from(text, ">"@, o);
        if find_from(text, ">"@, o) is Some {
            let g = find_from(text, ">"@, o)->Some_0;
            reveal_strlit(">");
            reveal_strlit("<finding");
            reveal_strlit("</finding>");
            lemma_find_from(text, "</finding>"@, g + 1);
            if find_from(text, "</finding>"@, g + 1) is Some {
                let c = find_from(text, "</finding>"@, g + 1)->Some_0;
                let raw = text.subrange(g + 1, c);
                assert(!has_sub(raw, "</finding>"@)) by {
                    if has_sub(raw, "</finding>"@) {
                        let i = choose|i: int| match_at(raw, "</finding>"@, i);
                        lemma_match_at_subrange(text, g + 1, c, "</finding>"@, i);
                        assert(match_at(text, "</finding>"@, g + 1 + i));
                    }
                }
                lemma_no_sub_trim(raw, "</finding>"@);
                let attrs = spec_parse_attrs(text.subrange(o, g + 1));
                let severity = spec_severity_of(spec_attrs_get_or_empty(attrs, "severity"@));
                let fv = FindingView { severity, body: trim_spec(raw), attrs };
                lemma_findings_loop_bodies(text, c + ("</finding>"@).len(), acc.push(fv));
            }
        }
    }
}

/// Re-parsing the body that a finding was extracted with yields no new
/// findings: each emitted body lies strictly before the closing tag that
/// ended it, so it holds no closing tag of its own.
pub proof fn lemma_extract_findings_idempotent(text: Seq<char>)
    ensures
        forall|k: int|
            0 <= k < spec_extract_findings(text).len() ==> spec_extract_findings(
                (#[trigger] spec_extract_findings(text)[k]).body,
            ) == Seq::<FindingView>::empty(),
{
    lemma_findings_loop_bodies(text, 0, Seq::empty());
    assert forall|k: int| 0 <= k < spec_extract_findings(text).len() implies spec_extract_findings(
        (#[trigger] spec_extract_findings(text)[k]).body,
    ) == Seq::<FindingView>::empty() by {
        lemma_findings_without_close(spec_extract_findings(text)[k].body);
    }
}

/// A patch that passes both `looks_like_apply_patch` and
/// `validate_patch_paths` carries the begin and end markers, and none of
/// its file headers names an empty path, an absolute path, a drive prefix
/// or a `..` segment.
pub proof fn lemma_accepted_patch_is_safe(p: Seq<char>)
    requires
        spec_looks_like_apply_patch(p),
        patch_paths_ok(p),
    ensures
        has_sub(trim_spec(p), "*** Begin Patch"@),
        has_sub(trim_spec(p), "*** End Patch"@),
        forall|k: int|
            0 <= k < split_lines_from(p, 0).len() ==> match spec_header_path(
                #[trigger] split_lines_from(p, 0)[k],
            ) {
                Some(hp) => trim_spec(hp).len() > 0 && !is_sep(trim_spec(hp)[0])
                    && !has_dotdot_segment(trim_spec(hp)),
                None => true,
            },
{
}

/// Extraction already unwraps: when the patch block's body is not
/// CDATA-wrapped, `extract_patch` hands it back as it stands, and a second
/// `unwrap_cdata` leaves it unchanged.
pub proof fn lemma_extract_patch_unwrap_idempotent(text: Seq<char>)
    requires
        spec_first_block(text, "patch"@) is Some,
        !spec_cdata_wrapped(spec_first_block(text, "patch"@)->Some_0),
    ensures
        spec_extract_patch(text) == spec_first_block(text, "patch"@),
        spec_unwrap_cdata(spec_extract_patch(text)->Some_0) == spec_extract_patch(text)->Some_0,
{
}

} // verus!
