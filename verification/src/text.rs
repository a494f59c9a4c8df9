//! Character-sequence utilities: substring search, trimming, prefix and
//! suffix handling, line splitting and decimal rendering, each with an
//! exact specification over `Seq<char>`.

use vstd::prelude::*;

verus! {

/// The pattern `pat` occurs in `s` at position `i`.
pub open spec fn match_at(s: Seq<char>, pat: Seq<char>, i: int) -> bool {
    0 <= i && i + pat.len() <= s.len() && s.subrange(i, i + pat.len() as int) == pat
}

/// The pattern `pat` occurs somewhere in `s`.
pub open spec fn has_sub(s: Seq<char>, pat: Seq<char>) -> bool {
    exists|i: int| match_at(s, pat, i)
}

/// Position of the first occurrence of `pat` in `s` at or after `from`.
pub open spec fn find_from(s: Seq<char>, pat: Seq<char>, from: int) -> Option<int>
    decreases s.len() - from when 0 <= from <= s.len()
{
    if pat.len() == 0 {
        Some(from)
    } else if from + pat.len() > s.len() {
        None
    } else if match_at(s, pat, from) {
        Some(from)
    } else {
        find_from(s, pat, from + 1)
    }
}

/// `find_from` returns the least match position at or after `from`,
/// and `None` exactly when there is no match at or after `from`.
pub proof fn lemma_find_from(s: Seq<char>, pat: Seq<char>, from: int)
    requires
        0 <= from <= s.len(),
    ensures
        match find_from(s, pat, from) {
            Some(i) => from <= i && i + pat.len() <= s.len() && match_at(s, pat, i)
                && forall|j: int| from <= j < i ==> !match_at(s, pat, j),
            None => forall|j: int| j >= from ==> !match_at(s, pat, j),
        },
    decreases s.len() - from,
{
    if pat.len() == 0 {
        assert(s.subrange(from, from) =~= pat);
    } else if from + pat.len() > s.len() {
    } else if match_at(s, pat, from) {
    } else {
        lemma_find_from(s, pat, from + 1);
    }
}

/// A search from position 0 succeeds exactly when the pattern occurs.
pub proof fn lemma_find_has_sub(s: Seq<char>, pat: Seq<char>)
    ensures
        find_from(s, pat, 0) is Some <==> has_sub(s, pat),
{
    lemma_find_from(s, pat, 0);
    if find_from(s, pat, 0) is None {
        assert forall|i: int| !match_at(s, pat, i) by {
            if i >= 0 {
                assert(!match_at(s, pat, i));
            }
        }
    }
}

/// Compares `pat` against `s` at position `i`.
pub fn match_at_exec(s: &str, pat: &str, i: usize) -> (r: bool)
    requires
        i + pat@.len() <= s@.len(),
        s@.len() <= usize::MAX,
    ensures
        r == match_at(s@, pat@, i as int),
{
    let m = pat.unicode_len();
    let mut k: usize = 0;
    while k < m
        invariant
            0 <= k <= m,
            m == pat@.len(),
            i + m <= s@.len(),
            s@.len() <= usize::MAX,
            forall|t: int| 0 <= t < k ==> s@[i + t] == pat@[t],
        decreases m - k,
    {
        if s.get_char(i + k) != pat.get_char(k) {
            assert(s@.subrange(i as int, i + m) != pat@) by {
                assert(s@.subrange(i as int, i + m)[k as int] == s@[i + k]);
            }
            return false;
        }
        k += 1;
    }
    assert(s@.subrange(i as int, i + m) =~= pat@);
    true
}

/// Finds the first occurrence of `pat` in `s` at or after `from`.
pub fn find_sub_at(s: &str, pat: &str, from: usize) -> (r: Option<usize>)
    requires
        from <= s@.len(),
    ensures
        match r {
            Some(i) => find_from(s@, pat@, from as int) == Some(i as int),
            None => find_from(s@, pat@, from as int) is None,
        },
{
    let n = s.unicode_len();
    let m = pat.unicode_len();
    let mut i = from;
    loop
        invariant
            from <= i <= n,
            n == s@.len(),
            m == pat@.len(),
            find_from(s@, pat@, from as int) == find_from(s@, pat@, i as int),
        decreases n - i,
    {
        if m == 0 {
            return Some(i);
        }
        if m > n - i {
            return None;
        }
        if match_at_exec(s, pat, i) {
            return Some(i);
        }
        assert(find_from(s@, pat@, i as int) == find_from(s@, pat@, i + 1));
        i += 1;
    }
}

/// Whether `pat` occurs anywhere in `s`.
pub fn contains_sub(s: &str, pat: &str) -> (r: bool)
    ensures
        r == has_sub(s@, pat@),
{
    proof {
        lemma_find_has_sub(s@, pat@);
    }
    find_sub_at(s, pat, 0).is_some()
}

/// `s` begins with `pre`.
pub open spec fn starts_with(s: Seq<char>, pre: Seq<char>) -> bool {
    match_at(s, pre, 0)
}

/// `s` ends with `suf`.
pub open spec fn ends_with(s: Seq<char>, suf: Seq<char>) -> bool {
    suf.len() <= s.len() && match_at(s, suf, s.len() - suf.len())
}

/// Tests whether `s` begins with `pre`.
pub fn starts_with_str(s: &str, pre: &str) -> (r: bool)
    ensures
        r == starts_with(s@, pre@),
{
    let n = s.unicode_len();
    let m = pre.unicode_len();
    if m > n {
        return false;
    }
    match_at_exec(s, pre, 0)
}

/// Tests whether `s` ends with `suf`.
pub fn ends_with_str(s: &str, suf: &str) -> (r: bool)
    ensures
        r == ends_with(s@, suf@),
{
    let n = s.unicode_len();
    let m = suf.unicode_len();
    if m > n {
        return false;
    }
    match_at_exec(s, suf, n - m)
}

/// A character with the Unicode `White_Space` property, the set that
/// `char::is_whitespace` recognizes.
pub open spec fn is_space(c: char) -> bool {
    let u = c as u32;
    (0x9 <= u && u <= 0xD) || u == 0x20 || u == 0x85 || u == 0xA0 || u == 0x1680 || (0x2000 <= u
        && u <= 0x200A) || u == 0x2028 || u == 0x2029 || u == 0x202F || u == 0x205F || u == 0x3000
}

/// Tests for a whitespace character.
pub fn is_space_char(c: char) -> (r: bool)
    ensures
        r == is_space(c),
{
    let u = c as u32;
    (0x9 <= u && u <= 0xD) || u == 0x20 || u == 0x85 || u == 0xA0 || u == 0x1680 || (0x2000 <= u
        && u <= 0x200A) || u == 0x2028 || u == 0x2029 || u == 0x202F || u == 0x205F || u == 0x3000
}

/// First position at or after `i` that holds a non-whitespace character,
/// or the length of `s` when all of the rest is whitespace.
pub open spec fn ws_prefix_end(s: Seq<char>, i: int) -> int
    decreases s.len() - i when 0 <= i <= s.len()
{
    if i == s.len() {
        i
    } else if !is_space(s[i]) {
        i
    } else {
        ws_prefix_end(s, i + 1)
    }
}

/// Start of the maximal run of whitespace characters that ends at `i`.
pub open spec fn ws_suffix_start(s: Seq<char>, i: int) -> int
    decreases i when 0 <= i <= s.len()
{
    if i == 0 {
        0
    } else if !is_space(s[i - 1]) {
        i
    } else {
        ws_suffix_start(s, i - 1)
    }
}

/// `s` with leading and trailing whitespace removed.
pub open spec fn trim_spec(s: Seq<char>) -> Seq<char> {
    let a = ws_prefix_end(s, 0);
    let b = ws_suffix_start(s, s.len() as int);
    if a < b {
        s.subrange(a, b)
    } else {
        Seq::empty()
    }
}

pub proof fn lemma_ws_prefix_end(s: Seq<char>, i: int)
    requires
        0 <= i <= s.len(),
    ensures
        i <= ws_prefix_end(s, i) <= s.len(),
    decreases s.len() - i,
{
    if i < s.len() && is_space(s[i]) {
        lemma_ws_prefix_end(s, i + 1);
    }
}

pub proof fn lemma_ws_suffix_start(s: Seq<char>, i: int)
    requires
        0 <= i <= s.len(),
    ensures
        0 <= ws_suffix_start(s, i) <= i,
    decreases i,
{
    if i > 0 && is_space(s[i - 1]) {
        lemma_ws_suffix_start(s, i - 1);
    }
}

/// Removes leading and trailing whitespace.
pub fn trim_str<'a>(s: &'a str) -> (r: &'a str)
    ensures
        r@ == trim_spec(s@),
{
    let n = s.unicode_len();
    let mut a: usize = 0;
    while a < n && is_space_char(s.get_char(a))
        invariant
            0 <= a <= n,
            n == s@.len(),
            ws_prefix_end(s@, 0) == ws_prefix_end(s@, a as int),
        decreases n - a,
    {
        a += 1;
    }
    proof {
        assert(ws_prefix_end(s@, a as int) == a as int);
    }
    let mut b: usize = n;
    while b > 0 && is_space_char(s.get_char(b - 1))
        invariant
            0 <= b <= n,
            n == s@.len(),
            ws_suffix_start(s@, n as int) == ws_suffix_start(s@, b as int),
        decreases b,
    {
        b -= 1;
    }
    proof {
        assert(ws_suffix_start(s@, b as int) == b as int);
    }
    if a < b {
        s.substring_char(a, b)
    } else {
        let r = s.substring_char(a, a);
        assert(r@ =~= trim_spec(s@));
        r
    }
}

/// The segments of `s` that splitting on `'\n'` yields, from position `i` on.
/// A trailing newline yields a final empty segment.
pub open spec fn split_lines_from(s: Seq<char>, i: int) -> Seq<Seq<char>>
    decreases s.len() - i when 0 <= i <= s.len() via split_lines_from_decreases
{
    match find_from(s, "\n"@, i) {
        None => seq![s.subrange(i, s.len() as int)],
        Some(j) => seq![s.subrange(i, j)] + split_lines_from(s, j + 1),
    }
}

#[via_fn]
proof fn split_lines_from_decreases(s: Seq<char>, i: int) {
    lemma_find_from(s, "\n"@, i);
    proof_strlit_newline();
}

/// The view of `"\n"` is a single newline character.
pub proof fn proof_strlit_newline()
    ensures
        ("\n"@).len() == 1,
{
    reveal_strlit("\n");
}

/// Splits `s` into its lines at `'\n'`.
pub fn split_lines(s: &str) -> (r: Vec<String>)
    ensures
        r@.len() == split_lines_from(s@, 0).len(),
        forall|k: int|
            0 <= k < r@.len() ==> r@[k]@ == split_lines_from(s@, 0)[k],
{
    let n = s.unicode_len();
    let mut out: Vec<String> = Vec::new();
    let mut cur: usize = 0;
    loop
        invariant
            0 <= cur <= n,
            n == s@.len(),
            split_lines_from(s@, 0).len() == out@.len() + split_lines_from(s@, cur as int).len(),
            forall|k: int|
                0 <= k < out@.len() ==> out@[k]@ == split_lines_from(s@, 0)[k],
            forall|k: int|
                0 <= k < split_lines_from(s@, cur as int).len() ==> split_lines_from(
                    s@,
                    cur as int,
                )[k] == split_lines_from(s@, 0)[out@.len() + k],
        decreases n - cur,
    {
        proof {
            lemma_find_from(s@, "\n"@, cur as int);
            proof_strlit_newline();
        }
        let ghost pending = split_lines_from(s@, cur as int);
        let ghost done = out@.len() as int;
        match find_sub_at(s, "\n", cur) {
            None => {
                let line = s.substring_char(cur, n);
                out.push(String::from_str(line));
                proof {
                    assert(pending =~= seq![s@.subrange(cur as int, n as int)]);
                    assert forall|k: int| 0 <= k < out@.len() implies out@[k]@
                        == split_lines_from(s@, 0)[k] by {
                        if k == done {
                            assert(split_lines_from(s@, 0)[k] == pending[0]);
                        }
                    }
                }
                return out;
            },
            Some(j) => {
                let line = s.substring_char(cur, j);
                out.push(String::from_str(line));
                proof {
                    assert(pending == seq![s@.subrange(cur as int, j as int)]
                        + split_lines_from(s@, j + 1));
                    assert forall|k: int| 0 <= k < out@.len() implies out@[k]@
                        == split_lines_from(s@, 0)[k] by {
                        if k == done {
                            assert(split_lines_from(s@, 0)[k] == pending[0]);
                        }
                    }
                    assert forall|k: int|
                        0 <= k < split_lines_from(s@, j + 1).len() implies #[trigger] split_lines_from(
                        s@,
                        j + 1,
                    )[k] == split_lines_from(s@, 0)[out@.len() + k] by {
                        assert(split_lines_from(s@, j + 1)[k] == pending[k + 1]);
                        assert(pending[k + 1] == split_lines_from(s@, 0)[done + k + 1]);
                    }
                }
                cur = j + 1;
            },
        }
    }
}

/// The segments of `s` from position `i` on that splitting on the
/// character `c` yields.
pub open spec fn split_char_from(s: Seq<char>, c: char, i: int) -> Seq<Seq<char>>
    decreases s.len() - i when 0 <= i <= s.len() via split_char_from_decreases
{
    match find_char_from(s, c, i) {
        None => seq![s.subrange(i, s.len() as int)],
        Some(j) => seq![s.subrange(i, j)] + split_char_from(s, c, j + 1),
    }
}

#[via_fn]
proof fn split_char_from_decreases(s: Seq<char>, c: char, i: int) {
    lemma_find_char_from(s, c, i);
}

/// Splits `s` on the character `c`.
pub fn split_char(s: &str, c: char) -> (r: Vec<String>)
    ensures
        r@.len() == split_char_from(s@, c, 0).len(),
        forall|k: int| 0 <= k < r@.len() ==> r@[k]@ == split_char_from(s@, c, 0)[k],
{
    let n = s.unicode_len();
    let mut out: Vec<String> = Vec::new();
    let mut cur: usize = 0;
    loop
        invariant
            0 <= cur <= n,
            n == s@.len(),
            split_char_from(s@, c, 0).len() == out@.len() + split_char_from(s@, c, cur as int).len(),
            forall|k: int| 0 <= k < out@.len() ==> out@[k]@ == split_char_from(s@, c, 0)[k],
            forall|k: int|
                0 <= k < split_char_from(s@, c, cur as int).len() ==> split_char_from(
                    s@,
                    c,
                    cur as int,
                )[k] == split_char_from(s@, c, 0)[out@.len() + k],
        decreases n - cur,
    {
        proof {
            lemma_find_char_from(s@, c, cur as int);
        }
        let ghost pending = split_char_from(s@, c, cur as int);
        let ghost done = out@.len() as int;
        match find_char_at(s, c, cur) {
            None => {
                let piece = s.substring_char(cur, n);
                out.push(String::from_str(piece));
                proof {
                    assert(pending =~= seq![s@.subrange(cur as int, n as int)]);
                    assert forall|k: int| 0 <= k < out@.len() implies out@[k]@ == split_char_from(
                        s@,
                        c,
                        0,
                    )[k] by {
                        if k == done {
                            assert(split_char_from(s@, c, 0)[k] == pending[0]);
                        }
                    }
                }
                return out;
            },
            Some(j) => {
                let piece = s.substring_char(cur, j);
                out.push(String::from_str(piece));
                proof {
                    assert(pending == seq![s@.subrange(cur as int, j as int)] + split_char_from(
                        s@,
                        c,
                        j + 1,
                    ));
                    assert forall|k: int| 0 <= k < out@.len() implies out@[k]@ == split_char_from(
                        s@,
                        c,
                        0,
                    )[k] by {
                        if k == done {
                            assert(split_char_from(s@, c, 0)[k] == pending[0]);
                        }
                    }
                    assert forall|k: int|
                        0 <= k < split_char_from(s@, c, j + 1).len() implies #[trigger] split_char_from(
                        s@,
                        c,
                        j + 1,
                    )[k] == split_char_from(s@, c, 0)[out@.len() + k] by {
                        assert(split_char_from(s@, c, j + 1)[k] == pending[k + 1]);
                        assert(pending[k + 1] == split_char_from(s@, c, 0)[done + k + 1]);
                    }
                }
                cur = j + 1;
            },
        }
    }
}

/// The parts joined with `sep` between consecutive parts.
pub open spec fn join_with(parts: Seq<Seq<char>>, sep: Seq<char>) -> Seq<char>
    decreases parts.len(),
{
    if parts.len() == 0 {
        Seq::empty()
    } else if parts.len() == 1 {
        parts[0]
    } else {
        parts[0] + sep + join_with(parts.drop_first(), sep)
    }
}

/// Joining after appending one more part appends a separator and the part.
pub proof fn lemma_join_push(parts: Seq<Seq<char>>, sep: Seq<char>, x: Seq<char>)
    ensures
        join_with(parts.push(x), sep) == if parts.len() == 0 {
            x
        } else {
            join_with(parts, sep) + sep + x
        },
    decreases parts.len(),
{
    if parts.len() == 0 {
        assert(parts.push(x)[0] == x);
        assert(parts.push(x).len() == 1);
    } else {
        assert(parts.push(x).drop_first() =~= parts.drop_first().push(x));
        lemma_join_push(parts.drop_first(), sep, x);
        if parts.len() == 1 {
            assert(join_with(parts, sep) == parts[0]);
            assert(join_with(parts.push(x), sep) == parts[0] + sep + x);
        } else {
            assert(join_with(parts, sep) + sep + x =~= parts[0] + sep + (join_with(
                parts.drop_first(),
                sep,
            ) + sep + x));
        }
    }
}

/// Joins the parts with `sep`.
pub fn join_strings(parts: &Vec<String>, sep: &str) -> (r: String)
    ensures
        r@ == join_with(parts@.map_values(|p: String| p@), sep@),
{
    let ghost views = parts@.map_values(|p: String| p@);
    let mut out = String::new();
    let mut i: usize = 0;
    while i < parts.len()
        invariant
            0 <= i <= parts@.len(),
            views == parts@.map_values(|p: String| p@),
            out@ == join_with(views.take(i as int), sep@),
        decreases parts@.len() - i,
    {
        if i > 0 {
            out.append(sep);
        }
        out.append(parts[i].as_str());
        proof {
            assert(views.take(i + 1) =~= views.take(i as int).push(views[i as int]));
            lemma_join_push(views.take(i as int), sep@, views[i as int]);
            assert(views.take(i as int).len() == i);
        }
        i += 1;
    }
    proof {
        assert(views.take(parts@.len() as int) =~= views);
    }
    out
}

/// Position of the last occurrence of the character `c` strictly before
/// position `i` of `s`.
pub open spec fn rfind_char_before(s: Seq<char>, c: char, i: int) -> Option<int>
    decreases i when 0 <= i <= s.len()
{
    if i <= 0 {
        None
    } else if s[i - 1] == c {
        Some(i - 1)
    } else {
        rfind_char_before(s, c, i - 1)
    }
}

/// A backwards find lands strictly before its start, on the character.
pub proof fn lemma_rfind_char_before(s: Seq<char>, c: char, i: int)
    requires
        0 <= i <= s.len(),
    ensures
        match rfind_char_before(s, c, i) {
            Some(j) => 0 <= j < i && s[j] == c,
            None => true,
        },
    decreases i,
{
    if i > 0 && s[i - 1] != c {
        lemma_rfind_char_before(s, c, i - 1);
    }
}

/// Finds the last occurrence of the character `c` strictly before `from`.
pub fn rfind_char_at(s: &str, c: char, from: usize) -> (r: Option<usize>)
    requires
        from <= s@.len(),
    ensures
        match r {
            Some(i) => i < from && rfind_char_before(s@, c, from as int) == Some(i as int),
            None => rfind_char_before(s@, c, from as int) is None,
        },
{
    let mut i = from;
    while i > 0
        invariant
            0 <= i <= from <= s@.len(),
            rfind_char_before(s@, c, from as int) == rfind_char_before(s@, c, i as int),
        decreases i,
    {
        if s.get_char(i - 1) == c {
            return Some(i - 1);
        }
        i -= 1;
    }
    None
}

/// `s` from position `i` on, with every occurrence of `pat` replaced by `rep`.
pub open spec fn replace_from(s: Seq<char>, pat: Seq<char>, rep: Seq<char>, i: int) -> Seq<char>
    decreases s.len() - i when 0 <= i <= s.len() && pat.len() > 0 via replace_from_decreases
{
    match find_from(s, pat, i) {
        None => s.subrange(i, s.len() as int),
        Some(j) => s.subrange(i, j) + rep + replace_from(s, pat, rep, j + pat.len()),
    }
}

#[via_fn]
proof fn replace_from_decreases(s: Seq<char>, pat: Seq<char>, rep: Seq<char>, i: int) {
    lemma_find_from(s, pat, i);
}

/// Replaces every occurrence of `pat` in `s` by `rep`.
pub fn replace_all(s: &str, pat: &str, rep: &str) -> (r: String)
    requires
        pat@.len() > 0,
    ensures
        r@ == replace_from(s@, pat@, rep@, 0),
{
    let n = s.unicode_len();
    let mut out = String::new();
    let mut cur: usize = 0;
    loop
        invariant
            0 <= cur <= n,
            n == s@.len(),
            pat@.len() > 0,
            replace_from(s@, pat@, rep@, 0) == out@ + replace_from(s@, pat@, rep@, cur as int),
        decreases n - cur,
    {
        proof {
            lemma_find_from(s@, pat@, cur as int);
        }
        match find_sub_at(s, pat, cur) {
            None => {
                out.append(s.substring_char(cur, n));
                assert(out@ =~= replace_from(s@, pat@, rep@, 0));
                return out;
            },
            Some(j) => {
                out.append(s.substring_char(cur, j));
                out.append(rep);
                proof {
                    assert(replace_from(s@, pat@, rep@, 0) =~= out@ + replace_from(
                        s@,
                        pat@,
                        rep@,
                        j + pat@.len(),
                    ));
                }
                cur = j + pat.unicode_len();
            },
        }
    }
}

/// Position of the first occurrence of the character `c` in `s` at or
/// after `from`.
pub open spec fn find_char_from(s: Seq<char>, c: char, from: int) -> Option<int>
    decreases s.len() - from when 0 <= from <= s.len()
{
    if from == s.len() {
        None
    } else if s[from] == c {
        Some(from)
    } else {
        find_char_from(s, c, from + 1)
    }
}

/// `find_char_from` returns the least position holding `c` at or after
/// `from`, and `None` exactly when `c` does not occur there.
pub proof fn lemma_find_char_from(s: Seq<char>, c: char, from: int)
    requires
        0 <= from <= s.len(),
    ensures
        match find_char_from(s, c, from) {
            Some(i) => from <= i < s.len() && s[i] == c && forall|j: int|
                from <= j < i ==> s[j] != c,
            None => forall|j: int| from <= j < s.len() ==> s[j] != c,
        },
    decreases s.len() - from,
{
    if from < s.len() && s[from] != c {
        lemma_find_char_from(s, c, from + 1);
    }
}

/// Finds the first occurrence of the character `c` at or after `from`.
pub fn find_char_at(s: &str, c: char, from: usize) -> (r: Option<usize>)
    requires
        from <= s@.len(),
    ensures
        match r {
            Some(i) => find_char_from(s@, c, from as int) == Some(i as int),
            None => find_char_from(s@, c, from as int) is None,
        },
{
    let n = s.unicode_len();
    let mut i = from;
    while i < n
        invariant
            from <= i <= n,
            n == s@.len(),
            find_char_from(s@, c, from as int) == find_char_from(s@, c, i as int),
        decreases n - i,
    {
        if s.get_char(i) == c {
            return Some(i);
        }
        i += 1;
    }
    None
}

/// First position at or after `from` holding a non-whitespace character.
pub fn ws_end_at(s: &str, from: usize) -> (r: usize)
    requires
        from <= s@.len(),
    ensures
        r == ws_prefix_end(s@, from as int),
        from <= r <= s@.len(),
{
    let n = s.unicode_len();
    let mut i = from;
    while i < n && is_space_char(s.get_char(i))
        invariant
            from <= i <= n,
            n == s@.len(),
            ws_prefix_end(s@, from as int) == ws_prefix_end(s@, i as int),
        decreases n - i,
    {
        i += 1;
    }
    proof {
        assert(ws_prefix_end(s@, i as int) == i as int);
    }
    i
}

/// Compares two strings for equality of their character sequences.
pub fn str_eq(a: &str, b: &str) -> (r: bool)
    ensures
        r == (a@ == b@),
{
    let n = a.unicode_len();
    let m = b.unicode_len();
    if n != m {
        return false;
    }
    let r = match_at_exec(a, b, 0);
    proof {
        if r {
            assert(a@ =~= a@.subrange(0, a@.len() as int));
        } else {
            assert(a@.subrange(0, a@.len() as int) =~= a@);
        }
    }
    r
}

/// The decimal digit character for `d`.
pub open spec fn dec_digit(d: int) -> char {
    if d == 0 {
        '0'
    } else if d == 1 {
        '1'
    } else if d == 2 {
        '2'
    } else if d == 3 {
        '3'
    } else if d == 4 {
        '4'
    } else if d == 5 {
        '5'
    } else if d == 6 {
        '6'
    } else if d == 7 {
        '7'
    } else if d == 8 {
        '8'
    } else {
        '9'
    }
}

/// The decimal rendering of `n`, without leading zeros.
pub open spec fn dec_of(n: int) -> Seq<char>
    decreases n,
{
    if n < 10 {
        seq![dec_digit(n)]
    } else {
        dec_of(n / 10) + seq![dec_digit(n % 10)]
    }
}

fn dec_digit_str(d: u64) -> (r: &'static str)
    requires
        d < 10,
    ensures
        r@ =~= seq![dec_digit(d as int)],
{
    proof {
        reveal_strlit("0");
        reveal_strlit("1");
        reveal_strlit("2");
        reveal_strlit("3");
        reveal_strlit("4");
        reveal_strlit("5");
        reveal_strlit("6");
        reveal_strlit("7");
        reveal_strlit("8");
        reveal_strlit("9");
    }
    if d == 0 {
        "0"
    } else if d == 1 {
        "1"
    } else if d == 2 {
        "2"
    } else if d == 3 {
        "3"
    } else if d == 4 {
        "4"
    } else if d == 5 {
        "5"
    } else if d == 6 {
        "6"
    } else if d == 7 {
        "7"
    } else if d == 8 {
        "8"
    } else {
        "9"
    }
}

/// Renders `n` in decimal.
pub fn u64_to_dec(n: u64) -> (r: String)
    ensures
        r@ == dec_of(n as int),
    decreases n,
{
    if n < 10 {
        String::from_str(dec_digit_str(n))
    } else {
        let mut head = u64_to_dec(n / 10);
        head.append(dec_digit_str(n % 10));
        assert(head@ =~= dec_of(n as int));
        head
    }
}

} // verus!
