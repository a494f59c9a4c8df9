//! Serialization of the on-disk run artifacts as JSON text: verification
//! result lists, the context bundle, and the job metadata record. Each
//! writer's output is pinned exactly by a specification function.

use vstd::prelude::*;
use crate::text::dec_of;
use crate::text::join_strings;
use crate::text::join_with;
use crate::text::u64_to_dec;
use crate::types::ContextBundle;
use crate::types::CouncilMode;
use crate::types::FileSnapshot;
use crate::types::Snippet;
use crate::types::TruncationInfo;
use crate::verify::VerifyResult;

verus! {

/// The lowercase hexadecimal digit for `d`.
pub open spec fn hex_digit(d: int) -> char {
    if d == 0 {
        '0'
    } else if d == 1 {
        '1'
    } else if d == 2 {
        '2'
    } else if d == 3 {
        '3'
    } else if d == 4 {
        '4'
    } else if d == 5 {
        '5'
    } else if d == 6 {
        '6'
    } else if d == 7 {
        '7'
    } else if d == 8 {
        '8'
    } else if d == 9 {
        '9'
    } else if d == 10 {
        'a'
    } else if d == 11 {
        'b'
    } else if d == 12 {
        'c'
    } else if d == 13 {
        'd'
    } else if d == 14 {
        'e'
    } else {
        'f'
    }
}

fn hex_digit_str(d: u32) -> (r: &'static str)
    requires
        d < 16,
    ensures
        r@ =~= seq![hex_digit(d as int)],
{
    proof {
        reveal_strlit("0");
        reveal_strlit("1");
        reveal_strlit("2");
        reveal_strlit("3");
        reveal_strlit("4");
        reveal_strlit("5");
        reveal_strlit("6");
        reveal_strlit("7");
        reveal_strlit("8");
        reveal_strlit("9");
        reveal_strlit("a");
        reveal_strlit("b");
        reveal_strlit("c");
        reveal_strlit("d");
        reveal_strlit("e");
        reveal_strlit("f");
    }
    if d == 0 {
        "0"
    } else if d == 1 {
        "1"
    } else if d == 2 {
        "2"
    } else if d == 3 {
        "3"
    } else if d == 4 {
        "4"
    } else if d == 5 {
        "5"
    } else if d == 6 {
        "6"
    } else if d == 7 {
        "7"
    } else if d == 8 {
        "8"
    } else if d == 9 {
        "9"
    } else if d == 10 {
        "a"
    } else if d == 11 {
        "b"
    } else if d == 12 {
        "c"
    } else if d == 13 {
        "d"
    } else if d == 14 {
        "e"
    } else {
        "f"
    }
}

/// A character that a JSON string holds as itself: not the quote, not the
/// backslash, not a control character.
pub open spec fn is_plain_json_char(c: char) -> bool {
    c != '"' && c != '\\' && (c as u32) >= 0x20
}

/// The escape of one character inside a JSON string.
pub open spec fn esc_char(c: char) -> Seq<char> {
    if c == '"' {
        "\\\""@
    } else if c == '\\' {
        "\\\\"@
    } else if c == '\n' {
        "\\n"@
    } else if c == '\r' {
        "\\r"@
    } else if c == '\t' {
        "\\t"@
    } else if (c as u32) < 0x20 {
        "\\u00"@ + seq![hex_digit(((c as u32) as int) / 16), hex_digit(((c as u32) as int) % 16)]
    } else {
        seq![c]
    }
}

/// The escaped form of `s` from position `i` on.
pub open spec fn spec_escape_from(s: Seq<char>, i: int) -> Seq<char>
    decreases s.len() - i when 0 <= i <= s.len()
{
    if i >= s.len() {
        Seq::empty()
    } else {
        esc_char(s[i]) + spec_escape_from(s, i + 1)
    }
}

/// `s` as a JSON string: quoted, with the quote, the backslash and
/// control characters escaped.
pub open spec fn spec_json_string(s: Seq<char>) -> Seq<char> {
    "\""@ + spec_escape_from(s, 0) + "\""@
}

/// A run of plain characters escapes to itself.
proof fn lemma_escape_plain_run(s: Seq<char>, i: int, j: int)
    requires
        0 <= i <= j <= s.len(),
        forall|k: int| i <= k < j ==> is_plain_json_char(#[trigger] s[k]),
    ensures
        spec_escape_from(s, i) == s.subrange(i, j) + spec_escape_from(s, j),
    decreases j - i,
{
    if i == j {
        assert(s.subrange(i, j) =~= Seq::<char>::empty());
        assert(s.subrange(i, j) + spec_escape_from(s, j) =~= spec_escape_from(s, j));
    } else {
        lemma_escape_plain_run(s, i + 1, j);
        assert(esc_char(s[i]) == seq![s[i]]);
        assert(seq![s[i]] + (s.subrange(i + 1, j) + spec_escape_from(s, j)) =~= s.subrange(i, j)
            + spec_escape_from(s, j));
    }
}

fn is_plain_json_char_exec(c: char) -> (r: bool)
    ensures
        r == is_plain_json_char(c),
{
    c != '"' && c != '\\' && (c as u32) >= 0x20
}

/// Writes `s` as a JSON string, quotes and escapes included.
pub fn json_string(s: &str) -> (r: String)
    ensures
        r@ == spec_json_string(s@),
{
    let n = s.unicode_len();
    let mut out = String::from_str("\"");
    let mut i: usize = 0;
    proof {
        reveal_strlit("\"");
    }
    while i < n
        invariant
            0 <= i <= n,
            n == s@.len(),
            out@ == "\""@ + spec_escape_from(s@, 0).subrange(
                0,
                spec_escape_from(s@, 0).len() - spec_escape_from(s@, i as int).len(),
            ),
            spec_escape_from(s@, i as int).len() <= spec_escape_from(s@, 0).len(),
            spec_escape_from(s@, 0) == out@.subrange(1, out@.len() as int) + spec_escape_from(
                s@,
                i as int,
            ),
        decreases n - i,
    {
        proof {
            reveal_strlit("\"");
        }
        let c = s.get_char(i);
        let ghost before = out@;
        if is_plain_json_char_exec(c) {
            let mut j = i;
            while j < n && is_plain_json_char_exec(s.get_char(j))
                invariant
                    i <= j <= n,
                    n == s@.len(),
                    forall|k: int| i <= k < j ==> is_plain_json_char(#[trigger] s@[k]),
                decreases n - j,
            {
                j += 1;
            }
            out.append(s.substring_char(i, j));
            proof {
                lemma_escape_plain_run(s@, i as int, j as int);
                assert(spec_escape_from(s@, i as int) == s@.subrange(i as int, j as int)
                    + spec_escape_from(s@, j as int));
                assert(out@ =~= before + s@.subrange(i as int, j as int));
                assert(out@.subrange(1, out@.len() as int) =~= before.subrange(
                    1,
                    before.len() as int,
                ) + s@.subrange(i as int, j as int));
                assert(spec_escape_from(s@, 0) =~= out@.subrange(1, out@.len() as int)
                    + spec_escape_from(s@, j as int));
            }
            i = j;
        } else {
            if c == '"' {
                out.append("\\\"");
                proof {
                    reveal_strlit("\\\"");
                }
            } else if c == '\\' {
                out.append("\\\\");
                proof {
                    reveal_strlit("\\\\");
                }
            } else if c == '\n' {
                out.append("\\n");
                proof {
                    reveal_strlit("\\n");
                }
            } else if c == '\r' {
                out.append("\\r");
                proof {
                    reveal_strlit("\\r");
                }
            } else if c == '\t' {
                out.append("\\t");
                proof {
                    reveal_strlit("\\t");
                }
            } else {
                let u = c as u32;
                out.append("\\u00");
                out.append(hex_digit_str(u / 16));
                out.append(hex_digit_str(u % 16));
                proof {
                    reveal_strlit("\\u00");
                }
            }
            proof {
                assert(out@ =~= before + esc_char(s@[i as int]));
                assert(out@.subrange(1, out@.len() as int) =~= before.subrange(
                    1,
                    before.len() as int,
                ) + esc_char(s@[i as int]));
                assert(spec_escape_from(s@, i as int) == esc_char(s@[i as int])
                    + spec_escape_from(s@, i + 1));
                assert(spec_escape_from(s@, 0) =~= out@.subrange(1, out@.len() as int)
                    + spec_escape_from(s@, i + 1));
            }
            i = i + 1;
        }
        proof {
            assert(out@.subrange(1, out@.len() as int).len() == spec_escape_from(s@, 0).len()
                - spec_escape_from(s@, i as int).len());
            assert(out@ =~= "\""@ + out@.subrange(1, out@.len() as int));
            assert(out@.subrange(1, out@.len() as int) =~= spec_escape_from(s@, 0).subrange(
                0,
                spec_escape_from(s@, 0).len() - spec_escape_from(s@, i as int).len(),
            ));
        }
    }
    out.append("\"");
    proof {
        assert(spec_escape_from(s@, n as int) =~= Seq::<char>::empty());
        assert(out@ =~= spec_json_string(s@));
    }
    out
}

/// Relies on `String::push`: appends exactly one character.
#[verifier::external_body]
fn push_char(s: &mut String, c: char)
    ensures
        final(s)@ == old(s)@.push(c),
{
    s.push(c);
}

/// Escaping one more character appends that character's escape.
proof fn lemma_escape_push(v: Seq<char>, c: char)
    ensures
        spec_escape_from(v.push(c), 0) == spec_escape_from(v, 0) + esc_char(c),
    decreases v.len(),
{
    lemma_escape_push_from(v, c, 0);
}

proof fn lemma_escape_push_from(v: Seq<char>, c: char, i: int)
    requires
        0 <= i <= v.len(),
    ensures
        spec_escape_from(v.push(c), i) == spec_escape_from(v, i) + esc_char(c),
    decreases v.len() - i,
{
    if i == v.len() {
        assert(spec_escape_from(v.push(c), i) == esc_char(c) + spec_escape_from(
            v.push(c),
            i + 1,
        ));
        assert(spec_escape_from(v.push(c), i + 1) =~= Seq::<char>::empty());
        assert(spec_escape_from(v, i) =~= Seq::<char>::empty());
        assert(esc_char(c) + Seq::<char>::empty() =~= Seq::<char>::empty() + esc_char(c));
    } else {
        lemma_escape_push_from(v, c, i + 1);
        assert(v.push(c)[i] == v[i]);
        assert(esc_char(v[i]) + (spec_escape_from(v, i + 1) + esc_char(c)) =~= (esc_char(v[i])
            + spec_escape_from(v, i + 1)) + esc_char(c));
    }
}

/// The value a lowercase hexadecimal digit character denotes, or a
/// negative number for any other character.
pub open spec fn hex_val(c: char) -> int {
    if c == '0' {
        0
    } else if c == '1' {
        1
    } else if c == '2' {
        2
    } else if c == '3' {
        3
    } else if c == '4' {
        4
    } else if c == '5' {
        5
    } else if c == '6' {
        6
    } else if c == '7' {
        7
    } else if c == '8' {
        8
    } else if c == '9' {
        9
    } else if c == 'a' {
        10
    } else if c == 'b' {
        11
    } else if c == 'c' {
        12
    } else if c == 'd' {
        13
    } else if c == 'e' {
        14
    } else if c == 'f' {
        15
    } else {
        -1
    }
}

/// The position after the closing quote of a JSON string whose inside
/// starts at `i`: the canonical escapes this module's writer emits are
/// accepted and anything else ends the scan without a result.
pub open spec fn spec_str_end(s: Seq<char>, i: int) -> Option<int>
    decreases s.len() - i when 0 <= i <= s.len()
{
    if i >= s.len() {
        None
    } else if s[i] == '"' {
        Some(i + 1)
    } else if s[i] == '\\' {
        if i + 1 >= s.len() {
            None
        } else {
            let e = s[i + 1];
            if e == '"' || e == '\\' || e == 'n' || e == 'r' || e == 't' {
                spec_str_end(s, i + 2)
            } else if e == 'u' {
                if s.len() - i < 6 {
                    None
                } else if s[i + 2] != '0' || s[i + 3] != '0' {
                    None
                } else if hex_val(s[i + 4]) < 0 || hex_val(s[i + 5]) < 0 {
                    None
                } else {
                    let v = hex_val(s[i + 4]) * 16 + hex_val(s[i + 5]);
                    if v >= 0x20 || v == 0x09 || v == 0x0A || v == 0x0D {
                        None
                    } else {
                        spec_str_end(s, i + 6)
                    }
                }
            } else {
                None
            }
        }
    } else if is_plain_json_char(s[i]) {
        spec_str_end(s, i + 1)
    } else {
        None
    }
}

/// The position after a JSON string that starts at `pos`.
pub open spec fn spec_string_end(s: Seq<char>, pos: int) -> Option<int> {
    if 0 <= pos && pos < s.len() && s[pos] == '"' {
        spec_str_end(s, pos + 1)
    } else {
        None
    }
}

/// A successful string scan moves forward and stays inside the text.
pub proof fn lemma_str_end_bounds(s: Seq<char>, i: int)
    requires
        0 <= i <= s.len(),
    ensures
        spec_str_end(s, i) matches Some(e) ==> i < e <= s.len(),
    decreases s.len() - i,
{
    if i < s.len() && s[i] != '"' {
        if s[i] == '\\' && i + 1 < s.len() {
            let e = s[i + 1];
            if e == '"' || e == '\\' || e == 'n' || e == 'r' || e == 't' {
                lemma_str_end_bounds(s, i + 2);
            } else if e == 'u' && s.len() - i >= 6 {
                lemma_str_end_bounds(s, i + 6);
            }
        } else if is_plain_json_char(s[i]) {
            lemma_str_end_bounds(s, i + 1);
        }
    }
}

/// The value of a lowercase hexadecimal digit character.
fn hex_value_of(c: char) -> (r: Option<u32>)
    ensures
        match r {
            Some(d) => d < 16 && hex_digit(d as int) == c && d as int == hex_val(c),
            None => hex_val(c) < 0,
        },
{
    if c == '0' {
        Some(0)
    } else if c == '1' {
        Some(1)
    } else if c == '2' {
        Some(2)
    } else if c == '3' {
        Some(3)
    } else if c == '4' {
        Some(4)
    } else if c == '5' {
        Some(5)
    } else if c == '6' {
        Some(6)
    } else if c == '7' {
        Some(7)
    } else if c == '8' {
        Some(8)
    } else if c == '9' {
        Some(9)
    } else if c == 'a' {
        Some(10)
    } else if c == 'b' {
        Some(11)
    } else if c == 'c' {
        Some(12)
    } else if c == 'd' {
        Some(13)
    } else if c == 'e' {
        Some(14)
    } else if c == 'f' {
        Some(15)
    } else {
        None
    }
}

/// Reads a JSON string, quotes included, from position `pos` of `s`; it
/// accepts exactly the texts this module's writer emits, so success means
/// the consumed text is the serialization of the result.
pub fn parse_json_string(s: &str, pos: usize) -> (r: Option<(String, usize)>)
    requires
        pos <= s@.len(),
    ensures
        r matches Some((v, p)) ==> pos < p <= s@.len() && s@.subrange(pos as int, p as int)
            == spec_json_string(v@),
        r is Some <==> spec_string_end(s@, pos as int) is Some,
        r matches Some((v, p)) ==> spec_string_end(s@, pos as int) == Some(p as int),
{
    let n = s.unicode_len();
    if pos >= n {
        return None;
    }
    if s.get_char(pos) != '"' {
        return None;
    }
    let mut acc = String::new();
    let mut i = pos + 1;
    proof {
        reveal_strlit("\"");
        assert(acc@ =~= Seq::<char>::empty());
        assert(s@.subrange(pos + 1, i as int) =~= spec_escape_from(acc@, 0));
    }
    loop
        invariant
            pos + 1 <= i <= n,
            n == s@.len(),
            s@[pos as int] == '"',
            s@.subrange(pos + 1, i as int) == spec_escape_from(acc@, 0),
            spec_str_end(s@, pos + 1) == spec_str_end(s@, i as int),
        decreases n - i,
    {
        if i >= n {
            return None;
        }
        let c = s.get_char(i);
        let ghost acc0 = acc@;
        if c == '"' {
            proof {
                reveal_strlit("\"");
                assert(s@.subrange(pos as int, i + 1) =~= "\""@ + spec_escape_from(acc0, 0)
                    + "\""@);
            }
            return Some((acc, i + 1));
        }
        if c == '\\' {
            if i + 1 >= n {
                return None;
            }
            let e = s.get_char(i + 1);
            if e == '"' {
                push_char(&mut acc, '"');
                proof {
                    lemma_escape_push(acc0, '"');
                    reveal_strlit("\\\"");
                    assert(s@.subrange(pos + 1, i + 2) =~= spec_escape_from(acc0, 0) + esc_char(
                        '"',
                    ));
                }
                i = i + 2;
            } else if e == '\\' {
                push_char(&mut acc, '\\');
                proof {
                    lemma_escape_push(acc0, '\\');
                    reveal_strlit("\\\\");
                    assert(s@.subrange(pos + 1, i + 2) =~= spec_escape_from(acc0, 0) + esc_char(
                        '\\',
                    ));
                }
                i = i + 2;
            } else if e == 'n' {
                push_char(&mut acc, '\n');
                proof {
                    lemma_escape_push(acc0, '\n');
                    reveal_strlit("\\n");
                    assert(s@.subrange(pos + 1, i + 2) =~= spec_escape_from(acc0, 0) + esc_char(
                        '\n',
                    ));
                }
                i = i + 2;
            } else if e == 'r' {
                push_char(&mut acc, '\r');
                proof {
                    lemma_escape_push(acc0, '\r');
                    reveal_strlit("\\r");
                    assert(s@.subrange(pos + 1, i + 2) =~= spec_escape_from(acc0, 0) + esc_char(
                        '\r',
                    ));
                }
                i = i + 2;
            } else if e == 't' {
                push_char(&mut acc, '\t');
                proof {
                    lemma_escape_push(acc0, '\t');
                    reveal_strlit("\\t");
                    assert(s@.subrange(pos + 1, i + 2) =~= spec_escape_from(acc0, 0) + esc_char(
                        '\t',
                    ));
                }
                i = i + 2;
            } else if e == 'u' {
                if n - i < 6 {
                    return None;
                }
                if s.get_char(i + 2) != '0' || s.get_char(i + 3) != '0' {
                    return None;
                }
                let hi = match hex_value_of(s.get_char(i + 4)) {
                    None => {
                        return None;
                    },
                    Some(d) => d,
                };
                let lo = match hex_value_of(s.get_char(i + 5)) {
                    None => {
                        return None;
                    },
                    Some(d) => d,
                };
                let v = hi * 16 + lo;
                if v >= 0x20 {
                    return None;
                }
                if v == 0x09 || v == 0x0A || v == 0x0D {
                    return None;
                }
                let c2 = (v as u8) as char;
                push_char(&mut acc, c2);
                proof {
                    lemma_escape_push(acc0, c2);
                    reveal_strlit("\\u00");
                    assert(esc_char(c2) =~= "\\u00"@ + seq![
                        hex_digit(((c2 as u32) as int) / 16),
                        hex_digit(((c2 as u32) as int) % 16),
                    ]);
                    assert(s@.subrange(pos + 1, i + 6) =~= spec_escape_from(acc0, 0) + esc_char(
                        c2,
                    ));
                }
                i = i + 6;
            } else {
                return None;
            }
        } else {
            if !is_plain_json_char_exec(c) {
                return None;
            }
            push_char(&mut acc, c);
            proof {
                lemma_escape_push(acc0, c);
                assert(esc_char(c) =~= seq![c]);
                assert(s@.subrange(pos + 1, i + 1) =~= spec_escape_from(acc0, 0) + esc_char(c));
            }
            i = i + 1;
        }
    }
}

/// `b` as JSON.
pub open spec fn spec_json_bool(b: bool) -> Seq<char> {
    if b {
        "true"@
    } else {
        "false"@
    }
}

/// Writes a JSON boolean.
pub fn json_bool(b: bool) -> (r: &'static str)
    ensures
        r@ == spec_json_bool(b),
{
    if b {
        "true"
    } else {
        "false"
    }
}

/// One verification result as a JSON object.
pub open spec fn spec_verify_result_json(r: VerifyResult) -> Seq<char> {
    "{\"command\":"@ + spec_json_string(r.command@) + ",\"success\":"@ + spec_json_bool(r.success)
        + ",\"stdout\":"@ + spec_json_string(r.stdout@) + ",\"stderr\":"@ + spec_json_string(
        r.stderr@,
    ) + "}"@
}

/// A verification result list as a JSON array.
pub open spec fn spec_verify_results_json(rs: Seq<VerifyResult>) -> Seq<char> {
    "["@ + join_with(rs.map_values(|r: VerifyResult| spec_verify_result_json(r)), ","@) + "]"@
}

/// Writes one verification result as JSON.
pub fn verify_result_json(r: &VerifyResult) -> (out: String)
    ensures
        out@ == spec_verify_result_json(*r),
{
    let mut out = String::from_str("{\"command\":");
    let c = json_string(r.command.as_str());
    out.append(c.as_str());
    out.append(",\"success\":");
    out.append(json_bool(r.success));
    out.append(",\"stdout\":");
    let so = json_string(r.stdout.as_str());
    out.append(so.as_str());
    out.append(",\"stderr\":");
    let se = json_string(r.stderr.as_str());
    out.append(se.as_str());
    out.append("}");
    proof {
        assert(out@ =~= spec_verify_result_json(*r));
    }
    out
}

/// Writes a verification result list as JSON; the artifact format of
/// the baseline and final verification files.
pub fn verify_results_json(rs: &Vec<VerifyResult>) -> (out: String)
    ensures
        out@ == spec_verify_results_json(rs@),
{
    let mut items: Vec<String> = Vec::new();
    let mut i: usize = 0;
    while i < rs.len()
        invariant
            0 <= i <= rs@.len(),
            items@.len() == i,
            forall|k: int|
                0 <= k < i ==> (#[trigger] items@[k])@ == spec_verify_result_json(rs@[k]),
        decreases rs@.len() - i,
    {
        let item = verify_result_json(&rs[i]);
        items.push(item);
        i += 1;
    }
    let mut out = String::from_str("[");
    let joined = join_strings(&items, ",");
    proof {
        assert(items@.map_values(|p: String| p@) =~= rs@.map_values(
            |r: VerifyResult| spec_verify_result_json(r),
        ));
    }
    out.append(joined.as_str());
    out.append("]");
    proof {
        assert(out@ =~= spec_verify_results_json(rs@));
    }
    out
}

/// The position after `lit` when it stands at `pos`.
pub open spec fn spec_after_lit(s: Seq<char>, pos: int, lit: Seq<char>) -> Option<int> {
    if crate::text::match_at(s, lit, pos) {
        Some(pos + lit.len())
    } else {
        None
    }
}

fn expect_lit(s: &str, pos: usize, lit: &str) -> (r: Option<usize>)
    requires
        pos <= s@.len(),
    ensures
        r matches Some(p) ==> pos <= p <= s@.len() && p == pos + lit@.len() && s@.subrange(
            pos as int,
            p as int,
        ) == lit@,
        r is Some <==> spec_after_lit(s@, pos as int, lit@) is Some,
        r matches Some(p) ==> spec_after_lit(s@, pos as int, lit@) == Some(p as int),
{
    let n = s.unicode_len();
    let m = lit.unicode_len();
    if m > n - pos {
        return None;
    }
    if crate::text::match_at_exec(s, lit, pos) {
        Some(pos + m)
    } else {
        None
    }
}

/// The position after a JSON boolean that stands at `pos`.
pub open spec fn spec_bool_end(s: Seq<char>, pos: int) -> Option<int> {
    match spec_after_lit(s, pos, "true"@) {
        Some(p) => Some(p),
        None => spec_after_lit(s, pos, "false"@),
    }
}

/// Reads a JSON boolean.
pub fn parse_json_bool(s: &str, pos: usize) -> (r: Option<(bool, usize)>)
    requires
        pos <= s@.len(),
    ensures
        r matches Some((v, p)) ==> pos <= p <= s@.len() && s@.subrange(pos as int, p as int)
            == spec_json_bool(v),
        r is Some <==> spec_bool_end(s@, pos as int) is Some,
        r matches Some((v, p)) ==> spec_bool_end(s@, pos as int) == Some(p as int),
{
    match expect_lit(s, pos, "true") {
        Some(p) => Some((true, p)),
        None => match expect_lit(s, pos, "false") {
            Some(p) => Some((false, p)),
            None => None,
        },
    }
}

/// The position after one verification-result object that stands at
/// `pos`: its four fixed keys in order, a string, a boolean and two more
/// strings.
pub open spec fn spec_result_end(s: Seq<char>, pos: int) -> Option<int> {
    match spec_after_lit(s, pos, "{\"command\":"@) {
        None => None,
        Some(p1) => match spec_string_end(s, p1) {
            None => None,
            Some(p2) => match spec_after_lit(s, p2, ",\"success\":"@) {
                None => None,
                Some(p3) => match spec_bool_end(s, p3) {
                    None => None,
                    Some(p4) => match spec_after_lit(s, p4, ",\"stdout\":"@) {
                        None => None,
                        Some(p5) => match spec_string_end(s, p5) {
                            None => None,
                            Some(p6) => match spec_after_lit(s, p6, ",\"stderr\":"@) {
                                None => None,
                                Some(p7) => match spec_string_end(s, p7) {
                                    None => None,
                                    Some(p8) => spec_after_lit(s, p8, "}"@),
                                },
                            },
                        },
                    },
                },
            },
        },
    }
}

/// A successful object scan moves forward and stays inside the text.
pub proof fn lemma_result_end_bounds(s: Seq<char>, pos: int)
    ensures
        spec_result_end(s, pos) matches Some(q) ==> pos < q <= s.len(),
{
    reveal_strlit("{\"command\":");
    reveal_strlit("true");
    reveal_strlit("false");
    match spec_after_lit(s, pos, "{\"command\":"@) {
        None => {},
        Some(p1) => {
            match spec_string_end(s, p1) {
                None => {},
                Some(p2) => {
                    lemma_str_end_bounds(s, p1 + 1);
                    match spec_after_lit(s, p2, ",\"success\":"@) {
                        None => {},
                        Some(p3) => {
                            match spec_bool_end(s, p3) {
                                None => {},
                                Some(p4) => {
                                    match spec_after_lit(s, p4, ",\"stdout\":"@) {
                                        None => {},
                                        Some(p5) => {
                                            match spec_string_end(s, p5) {
                                                None => {},
                                                Some(p6) => {
                                                    lemma_str_end_bounds(s, p5 + 1);
                                                    match spec_after_lit(s, p6, ",\"stderr\":"@) {
                                                        None => {},
                                                        Some(p7) => {
                                                            match spec_string_end(s, p7) {
                                                                None => {},
                                                                Some(p8) => {
                                                                    lemma_str_end_bounds(
                                                                        s,
                                                                        p7 + 1,
                                                                    );
                                                                },
                                                            }
                                                        },
                                                    }
                                                },
                                            }
                                        },
                                    }
                                },
                            }
                        },
                    }
                },
            }
        },
    }
}

/// Reads one verification result object.
pub fn parse_verify_result(s: &str, pos: usize) -> (r: Option<(VerifyResult, usize)>)
    requires
        pos <= s@.len(),
    ensures
        r matches Some((v, p)) ==> pos <= p <= s@.len() && s@.subrange(pos as int, p as int)
            == spec_verify_result_json(v),
        r is Some <==> spec_result_end(s@, pos as int) is Some,
        r matches Some((v, p)) ==> spec_result_end(s@, pos as int) == Some(p as int),
{
    let p0 = pos;
    let p1 = match expect_lit(s, p0, "{\"command\":") {
        None => {
            return None;
        },
        Some(p) => p,
    };
    let (command, p2) = match parse_json_string(s, p1) {
        None => {
            return None;
        },
        Some(x) => x,
    };
    let p3 = match expect_lit(s, p2, ",\"success\":") {
        None => {
            return None;
        },
        Some(p) => p,
    };
    let (success, p4) = match parse_json_bool(s, p3) {
        None => {
            return None;
        },
        Some(x) => x,
    };
    let p5 = match expect_lit(s, p4, ",\"stdout\":") {
        None => {
            return None;
        },
        Some(p) => p,
    };
    let (stdout, p6) = match parse_json_string(s, p5) {
        None => {
            return None;
        },
        Some(x) => x,
    };
    let p7 = match expect_lit(s, p6, ",\"stderr\":") {
        None => {
            return None;
        },
        Some(p) => p,
    };
    let (stderr, p8) = match parse_json_string(s, p7) {
        None => {
            return None;
        },
        Some(x) => x,
    };
    let p9 = match expect_lit(s, p8, "}") {
        None => {
            return None;
        },
        Some(p) => p,
    };
    let v = VerifyResult { command, success, stdout, stderr };
    proof {
        assert(s@.subrange(pos as int, p9 as int) =~= spec_verify_result_json(v));
    }
    Some((v, p9))
}

/// After the first list item, the remaining text from `cur` is a run of
/// comma-separated items closed by `]` at the very end.
pub open spec fn spec_items_rest(s: Seq<char>, cur: int) -> bool
    decreases s.len() - cur when 0 <= cur <= s.len() via spec_items_rest_decreases
{
    if cur >= s.len() {
        false
    } else if s[cur] == ']' {
        cur + 1 == s.len()
    } else if s[cur] == ',' {
        match spec_result_end(s, cur + 1) {
            None => false,
            Some(nxt) => spec_items_rest(s, nxt),
        }
    } else {
        false
    }
}

#[via_fn]
proof fn spec_items_rest_decreases(s: Seq<char>, cur: int) {
    lemma_result_end_bounds(s, cur + 1);
}

/// The whole text is one verification-result list as this module's
/// writer emits it.
pub open spec fn spec_results_ok(s: Seq<char>) -> bool {
    match spec_after_lit(s, 0, "["@) {
        None => false,
        Some(p1) => if p1 < s.len() && s[p1] == ']' {
            p1 + 1 == s.len()
        } else {
            match spec_result_end(s, p1) {
                None => false,
                Some(c) => spec_items_rest(s, c),
            }
        },
    }
}

/// Reads a whole verification-result list, consuming the entire text.
/// It accepts exactly what `verify_results_json` writes: whatever
/// deserializes is the serialization of the returned list, and by
/// `lemma_verify_results_round_trip` every written text deserializes.
#[verifier::rlimit(100)]
#[verifier::spinoff_prover]
pub fn parse_verify_results(s: &str) -> (r: Option<Vec<VerifyResult>>)
    ensures
        r matches Some(rs) ==> s@ == spec_verify_results_json(rs@),
        r is Some <==> spec_results_ok(s@),
{
    let n = s.unicode_len();
    let p1 = match expect_lit(s, 0, "[") {
        None => {
            return None;
        },
        Some(p) => p,
    };
    proof {
        reveal_strlit("[");
    }
    let mut out: Vec<VerifyResult> = Vec::new();
    if p1 < n && s.get_char(p1) == ']' {
        if p1 + 1 != n {
            return None;
        }
        proof {
            reveal_strlit("]");
            assert(out@.map_values(|x: VerifyResult| spec_verify_result_json(x)) =~= Seq::<
                Seq<char>,
            >::empty());
            assert(s@ =~= "["@ + join_with(
                out@.map_values(|x: VerifyResult| spec_verify_result_json(x)),
                ","@,
            ) + "]"@);
        }
        return Some(out);
    }
    let (first, mut cur) = match parse_verify_result(s, p1) {
        None => {
            return None;
        },
        Some(x) => x,
    };
    out.push(first);
    proof {
        assert(out@.map_values(|x: VerifyResult| spec_verify_result_json(x)) =~= seq![
            spec_verify_result_json(out@[0]),
        ]);
        assert(s@.subrange(p1 as int, cur as int) =~= join_with(
            out@.map_values(|x: VerifyResult| spec_verify_result_json(x)),
            ","@,
        ));
    }
    loop
        invariant
            p1 == 1,
            p1 <= cur <= n,
            n == s@.len(),
            out@.len() >= 1,
            spec_results_ok(s@) == spec_items_rest(s@, cur as int),
            s@.subrange(0, p1 as int) == "["@,
            s@.subrange(p1 as int, cur as int) == join_with(
                out@.map_values(|x: VerifyResult| spec_verify_result_json(x)),
                ","@,
            ),
        decreases n - cur,
    {
        if cur >= n {
            proof {
                assert(!spec_items_rest(s@, cur as int));
            }
            return None;
        }
        let c = s.get_char(cur);
        if c == ']' {
            if cur + 1 != n {
                proof {
                    assert(!spec_items_rest(s@, cur as int));
                }
                return None;
            }
            proof {
                reveal_strlit("]");
                assert(s@.subrange(cur as int, n as int) =~= "]"@);
                assert(s@ =~= s@.subrange(0, p1 as int) + s@.subrange(p1 as int, cur as int)
                    + s@.subrange(cur as int, n as int));
            }
            return Some(out);
        }
        if c != ',' {
            proof {
                assert(!spec_items_rest(s@, cur as int));
            }
            return None;
        }
        let ghost items0 = out@.map_values(|x: VerifyResult| spec_verify_result_json(x));
        let (item, nxt) = match parse_verify_result(s, cur + 1) {
            None => {
                proof {
                    assert(!spec_items_rest(s@, cur as int));
                }
                return None;
            },
            Some(x) => x,
        };
        proof {
            assert(spec_items_rest(s@, cur as int) == spec_items_rest(s@, nxt as int));
        }
        out.push(item);
        proof {
            reveal_strlit(",");
            let items1 = out@.map_values(|x: VerifyResult| spec_verify_result_json(x));
            assert(items1 =~= items0.push(spec_verify_result_json(item)));
            crate::text::lemma_join_push(items0, ","@, spec_verify_result_json(item));
            assert(s@.subrange(cur as int, cur + 1) =~= ","@);
            assert(s@.subrange(p1 as int, nxt as int) =~= s@.subrange(p1 as int, cur as int)
                + s@.subrange(cur as int, cur + 1) + s@.subrange(cur + 1, nxt as int));
            assert(s@.subrange(p1 as int, nxt as int) =~= join_with(items1, ","@));
        }
        cur = nxt;
    }
}

proof fn lemma_seq_slice(s: Seq<char>, pos: int, x: Seq<char>, off: int, y: Seq<char>)
    requires
        0 <= pos,
        0 <= off,
        off + y.len() <= x.len(),
        pos + x.len() <= s.len(),
        s.subrange(pos, pos + x.len()) == x,
        x.subrange(off, off + y.len()) == y,
    ensures
        s.subrange(pos + off, pos + off + y.len()) == y,
{
    assert forall|t: int| 0 <= t < y.len() implies s.subrange(
        pos + off,
        pos + off + y.len(),
    )[t] == y[t] by {
        assert(s.subrange(pos, pos + x.len())[off + t] == x[off + t]);
        assert(x.subrange(off, off + y.len())[t] == y[t]);
    }
    assert(s.subrange(pos + off, pos + off + y.len()) =~= y);
}

proof fn lemma_str_end_complete(s: Seq<char>, i: int, v: Seq<char>, k: int)
    requires
        0 <= k <= v.len(),
        0 <= i,
        i + spec_escape_from(v, k).len() + 1 <= s.len(),
        s.subrange(i, i + spec_escape_from(v, k).len()) == spec_escape_from(v, k),
        s[i + spec_escape_from(v, k).len()] == '"',
    ensures
        spec_str_end(s, i) == Some(i + spec_escape_from(v, k).len() + 1),
    decreases v.len() - k,
{
    if k == v.len() {
        assert(spec_escape_from(v, k).len() == 0);
        assert(s[i] == '"');
    } else {
        let e = esc_char(v[k]);
        let rest = spec_escape_from(v, k + 1);
        let el = e.len() as int;
        let rl = rest.len() as int;
        let full = spec_escape_from(v, k);
        let l = full.len() as int;
        assert(full == e + rest);
        assert(full.subrange(0, el) =~= e);
        lemma_seq_slice(s, i, full, 0, e);
        assert(s.subrange(i, i + el) == e);
        assert forall|t: int| 0 <= t < el implies s[i + t] == e[t] by {
            assert(s.subrange(i, i + el)[t] == e[t]);
        }
        assert(full.subrange(el, el + rl) =~= rest);
        lemma_seq_slice(s, i, full, el, rest);
        assert(s.subrange(i + el, i + el + rl) == rest);
        assert(s[i + el + rl] == '"');
        let c = v[k];
        if c == '"' {
            reveal_strlit("\\\"");
            assert(s[i + 0] == e[0] && s[i + 1] == e[1]);
            assert(s[i] == '\\' && s[i + 1] == '"');
            lemma_str_end_complete(s, i + 2, v, k + 1);
        } else if c == '\\' {
            reveal_strlit("\\\\");
            assert(s[i + 0] == e[0] && s[i + 1] == e[1]);
            assert(s[i] == '\\' && s[i + 1] == '\\');
            lemma_str_end_complete(s, i + 2, v, k + 1);
        } else if c == '\n' {
            reveal_strlit("\\n");
            assert(s[i + 0] == e[0] && s[i + 1] == e[1]);
            assert(s[i] == '\\' && s[i + 1] == 'n');
            lemma_str_end_complete(s, i + 2, v, k + 1);
        } else if c == '\r' {
            reveal_strlit("\\r");
            assert(s[i + 0] == e[0] && s[i + 1] == e[1]);
            assert(s[i] == '\\' && s[i + 1] == 'r');
            lemma_str_end_complete(s, i + 2, v, k + 1);
        } else if c == '\t' {
            reveal_strlit("\\t");
            assert(s[i + 0] == e[0] && s[i + 1] == e[1]);
            assert(s[i] == '\\' && s[i + 1] == 't');
            lemma_str_end_complete(s, i + 2, v, k + 1);
        } else if (c as u32) < 0x20 {
            reveal_strlit("\\u00");
            let u = (c as u32) as int;
            assert(e == "\\u00"@ + seq![hex_digit(u / 16), hex_digit(u % 16)]);
            assert(s[i + 0] == e[0] && s[i + 1] == e[1] && s[i + 2] == e[2] && s[i + 3] == e[3]
                && s[i + 4] == e[4] && s[i + 5] == e[5]);
            assert(s[i] == '\\' && s[i + 1] == 'u' && s[i + 2] == '0' && s[i + 3] == '0');
            assert(s[i + 4] == hex_digit(u / 16) && s[i + 5] == hex_digit(u % 16));
            assert(hex_val(hex_digit(u / 16)) == u / 16);
            assert(hex_val(hex_digit(u % 16)) == u % 16);
            assert((u / 16) * 16 + u % 16 == u);
            assert(u != 0x09 && u != 0x0A && u != 0x0D) by {
                if c as u32 == 9u32 {
                    vstd::utf8::char_u32_cast(c, 9u32);
                    vstd::utf8::char_u32_cast('\t', 9u32);
                }
                if c as u32 == 10u32 {
                    vstd::utf8::char_u32_cast(c, 10u32);
                    vstd::utf8::char_u32_cast('\n', 10u32);
                }
                if c as u32 == 13u32 {
                    vstd::utf8::char_u32_cast(c, 13u32);
                    vstd::utf8::char_u32_cast('\r', 13u32);
                }
            }
            lemma_str_end_complete(s, i + 6, v, k + 1);
        } else {
            assert(e == seq![c]);
            assert(s[i + 0] == e[0]);
            assert(s[i] == c);
            assert(is_plain_json_char(c));
            lemma_str_end_complete(s, i + 1, v, k + 1);
        }
    }
}

proof fn lemma_string_end_complete(s: Seq<char>, pos: int, v: Seq<char>)
    requires
        0 <= pos,
        pos + spec_json_string(v).len() <= s.len(),
        s.subrange(pos, pos + spec_json_string(v).len()) == spec_json_string(v),
    ensures
        spec_string_end(s, pos) == Some(pos + spec_json_string(v).len()),
{
    reveal_strlit("\"");
    let esc = spec_escape_from(v, 0);
    let whole = spec_json_string(v);
    let l = whole.len() as int;
    assert(l == esc.len() + 2);
    assert(s.subrange(pos, pos + l)[0] == whole[0]);
    assert(s[pos] == '"');
    let escl = esc.len() as int;
    assert(whole.subrange(1, 1 + escl) =~= esc);
    lemma_seq_slice(s, pos, whole, 1, esc);
    assert(s.subrange(pos + 1, pos + 1 + escl) == esc);
    assert(s.subrange(pos, pos + l)[l - 1] == whole[l - 1]);
    assert(s[pos + 1 + esc.len()] == '"');
    lemma_str_end_complete(s, pos + 1, v, 0);
}

proof fn lemma_lit_at(s: Seq<char>, pos: int, lit: Seq<char>)
    requires
        0 <= pos,
        pos + lit.len() <= s.len(),
        s.subrange(pos, pos + lit.len()) == lit,
    ensures
        spec_after_lit(s, pos, lit) == Some(pos + lit.len()),
{
}

proof fn lemma_result_end_complete(s: Seq<char>, pos: int, r: VerifyResult)
    requires
        0 <= pos,
        pos + spec_verify_result_json(r).len() <= s.len(),
        s.subrange(pos, pos + spec_verify_result_json(r).len()) == spec_verify_result_json(r),
    ensures
        spec_result_end(s, pos) == Some(pos + spec_verify_result_json(r).len()),
{
    let a = "{\"command\":"@;
    let s1 = spec_json_string(r.command@);
    let b = ",\"success\":"@;
    let c = spec_json_bool(r.success);
    let d = ",\"stdout\":"@;
    let s2 = spec_json_string(r.stdout@);
    let e = ",\"stderr\":"@;
    let s3 = spec_json_string(r.stderr@);
    let f = "}"@;
    let whole = spec_verify_result_json(r);
    let l = whole.len() as int;
    assert(whole == a + s1 + b + c + d + s2 + e + s3 + f);
    let o0 = 0int;
    let o1 = o0 + a.len();
    let o2 = o1 + s1.len();
    let o3 = o2 + b.len();
    let o4 = o3 + c.len();
    let o5 = o4 + d.len();
    let o6 = o5 + s2.len();
    let o7 = o6 + e.len();
    let o8 = o7 + s3.len();
    assert(whole.subrange(o0, o1) =~= a);
    assert(whole.subrange(o1, o2) =~= s1);
    assert(whole.subrange(o2, o3) =~= b);
    assert(whole.subrange(o3, o4) =~= c);
    assert(whole.subrange(o4, o5) =~= d);
    assert(whole.subrange(o5, o6) =~= s2);
    assert(whole.subrange(o6, o7) =~= e);
    assert(whole.subrange(o7, o8) =~= s3);
    assert(whole.subrange(o8, o8 + f.len()) =~= f);
    lemma_seq_slice(s, pos, whole, o0, a);
    lemma_lit_at(s, pos, a);
    lemma_seq_slice(s, pos, whole, o1, s1);
    lemma_string_end_complete(s, pos + o1, r.command@);
    lemma_seq_slice(s, pos, whole, o2, b);
    lemma_lit_at(s, pos + o2, b);
    lemma_seq_slice(s, pos, whole, o3, c);
    assert(spec_bool_end(s, pos + o3) == Some(pos + o4)) by {
        reveal_strlit("true");
        reveal_strlit("false");
        if r.success {
            lemma_lit_at(s, pos + o3, "true"@);
        } else {
            assert(!crate::text::match_at(s, "true"@, pos + o3)) by {
                if crate::text::match_at(s, "true"@, pos + o3) {
                    assert(s.subrange(pos + o3, pos + o3 + 4)[0] == 't');
                    assert(s.subrange(pos + o3, pos + o4)[0] == c[0]);
                }
            }
            lemma_lit_at(s, pos + o3, "false"@);
        }
    }
    lemma_seq_slice(s, pos, whole, o4, d);
    lemma_lit_at(s, pos + o4, d);
    lemma_seq_slice(s, pos, whole, o5, s2);
    lemma_string_end_complete(s, pos + o5, r.stdout@);
    lemma_seq_slice(s, pos, whole, o6, e);
    lemma_lit_at(s, pos + o6, e);
    lemma_seq_slice(s, pos, whole, o7, s3);
    lemma_string_end_complete(s, pos + o7, r.stderr@);
    lemma_seq_slice(s, pos, whole, o8, f);
    lemma_lit_at(s, pos + o8, f);
}

/// The comma-separated continuation of a result list after its first item.
pub open spec fn spec_commas_json(items: Seq<VerifyResult>) -> Seq<char>
    decreases items.len(),
{
    if items.len() == 0 {
        Seq::empty()
    } else {
        ","@ + spec_verify_result_json(items[0]) + spec_commas_json(items.drop_first())
    }
}

proof fn lemma_items_complete(s: Seq<char>, cur: int, items: Seq<VerifyResult>)
    requires
        0 <= cur,
        s.len() == cur + spec_commas_json(items).len() + 1,
        s.subrange(cur, s.len() as int) == spec_commas_json(items) + "]"@,
    ensures
        spec_items_rest(s, cur),
    decreases items.len(),
{
    reveal_strlit("]");
    reveal_strlit(",");
    let tail = spec_commas_json(items) + "]"@;
    let tl = tail.len() as int;
    if items.len() == 0 {
        assert(s.subrange(cur, s.len() as int)[0] == tail[0]);
        assert(s[cur] == ']');
    } else {
        let ser0 = spec_verify_result_json(items[0]);
        let sl = ser0.len() as int;
        let rest = spec_commas_json(items.drop_first());
        assert(spec_commas_json(items) == ","@ + ser0 + rest);
        assert(s.subrange(cur, s.len() as int)[0] == tail[0]);
        assert(s[cur] == ',');
        assert(',' != ']');
        let nxt = cur + 1 + sl;
        assert(tail.subrange(1, 1 + sl) =~= ser0);
        lemma_seq_slice(s, cur, tail, 1, ser0);
        lemma_result_end_complete(s, cur + 1, items[0]);
        assert(tail.subrange(1 + sl, tl) =~= rest + "]"@);
        lemma_seq_slice(s, cur, tail, 1 + sl, rest + "]"@);
        assert(s.subrange(nxt, s.len() as int) == rest + "]"@);
        lemma_items_complete(s, nxt, items.drop_first());
    }
}

proof fn lemma_join_commas(rs: Seq<VerifyResult>)
    requires
        rs.len() >= 1,
    ensures
        join_with(rs.map_values(|r: VerifyResult| spec_verify_result_json(r)), ","@)
            == spec_verify_result_json(rs[0]) + spec_commas_json(rs.drop_first()),
    decreases rs.len(),
{
    reveal_strlit(",");
    let parts = rs.map_values(|r: VerifyResult| spec_verify_result_json(r));
    if rs.len() == 1 {
        assert(spec_commas_json(rs.drop_first()) =~= Seq::<char>::empty());
        assert(spec_verify_result_json(rs[0]) + Seq::<char>::empty() =~= spec_verify_result_json(
            rs[0],
        ));
        assert(parts[0] == spec_verify_result_json(rs[0]));
    } else {
        lemma_join_commas(rs.drop_first());
        assert(parts.drop_first() =~= rs.drop_first().map_values(
            |r: VerifyResult| spec_verify_result_json(r),
        ));
        assert(parts[0] == spec_verify_result_json(rs[0]));
        let rest = rs.drop_first();
        assert(spec_commas_json(rest) == ","@ + spec_verify_result_json(rest[0])
            + spec_commas_json(rest.drop_first()));
        assert(parts[0] + ","@ + (spec_verify_result_json(rest[0]) + spec_commas_json(
            rest.drop_first(),
        )) =~= spec_verify_result_json(rs[0]) + spec_commas_json(rest));
    }
}

/// Round trip of the verification artifacts: every text the writer emits
/// deserializes. Together with the reader's own contract — whatever
/// deserializes is exactly the serialization of the returned list — a
/// written artifact survives serialize, deserialize, serialize unchanged.
#[verifier::rlimit(100)]
#[verifier::spinoff_prover]
pub proof fn lemma_verify_results_round_trip(rs: Seq<VerifyResult>)
    ensures
        spec_results_ok(spec_verify_results_json(rs)),
{
    reveal_strlit("[");
    reveal_strlit("]");
    let s = spec_verify_results_json(rs);
    let parts = rs.map_values(|r: VerifyResult| spec_verify_result_json(r));
    let joined = join_with(parts, ","@);
    let jl = joined.len() as int;
    assert(s == "["@ + joined + "]"@);
    assert(s.subrange(0, s.len() as int) =~= s);
    assert(s.subrange(0, 1) =~= "["@);
    lemma_lit_at(s, 0, "["@);
    assert(s[0] == '[');
    if rs.len() == 0 {
        assert(joined =~= Seq::<char>::empty());
        assert(s.len() == 2);
        assert(s[1] == ']');
    } else {
        lemma_join_commas(rs);
        let ser0 = spec_verify_result_json(rs[0]);
        let sl = ser0.len() as int;
        let rest = spec_commas_json(rs.drop_first());
        assert(joined == ser0 + rest);
        assert(s.subrange(1, 1 + jl) =~= joined) by {
            assert forall|t: int| 0 <= t < jl implies s.subrange(1, 1 + jl)[t] == joined[t] by {
                assert(s[1 + t] == ("["@ + joined + "]"@)[1 + t]);
            }
        }
        assert(joined.subrange(0, sl) =~= ser0);
        lemma_seq_slice(s, 1, joined, 0, ser0);
        assert(s.subrange(1, 1 + sl) == ser0);
        assert(s[1] == '{') by {
            reveal_strlit("{\"command\":");
            assert(ser0 == "{\"command\":"@ + spec_json_string(rs[0].command@) + ",\"success\":"@
                + spec_json_bool(rs[0].success) + ",\"stdout\":"@ + spec_json_string(rs[0].stdout@)
                + ",\"stderr\":"@ + spec_json_string(rs[0].stderr@) + "}"@);
            assert(ser0[0] == '{');
            assert(s.subrange(1, 1 + sl)[0] == ser0[0]);
        }
        assert(s[1] != ']');
        lemma_result_end_complete(s, 1, rs[0]);
        let nxt = 1 + sl;
        assert(s.subrange(nxt, s.len() as int) =~= rest + "]"@) by {
            assert forall|t: int| 0 <= t < rest.len() + 1 implies s.subrange(
                nxt,
                s.len() as int,
            )[t] == (rest + "]"@)[t] by {
                assert(s[nxt + t] == ("["@ + joined + "]"@)[nxt + t]);
            }
        }
        lemma_items_complete(s, nxt, rs.drop_first());
    }
}

/// The run mode's name.
pub open spec fn spec_mode_name(mode: CouncilMode) -> Seq<char> {
    match mode {
        CouncilMode::Review => "Review"@,
        CouncilMode::Fix => "Fix"@,
    }
}

/// Writes the run mode's name.
pub fn mode_name(mode: CouncilMode) -> (r: &'static str)
    ensures
        r@ == spec_mode_name(mode),
{
    match mode {
        CouncilMode::Review => "Review",
        CouncilMode::Fix => "Fix",
    }
}

/// The job metadata record as a JSON object.
pub open spec fn spec_job_metadata_json(
    job_id: Seq<char>,
    mode: CouncilMode,
    target: Seq<char>,
    head_sha: Seq<char>,
    repo_dirty: bool,
    prompt_version: Seq<char>,
    timestamp: int,
) -> Seq<char> {
    "{\"job_id\":"@ + spec_json_string(job_id) + ",\"mode\":"@ + spec_json_string(
        spec_mode_name(mode),
    ) + ",\"target\":"@ + spec_json_string(target) + ",\"head_sha_at_start\":"@ + spec_json_string(
        head_sha,
    ) + ",\"repo_dirty_at_start\":"@ + spec_json_bool(repo_dirty) + ",\"prompt_version\":"@
        + spec_json_string(prompt_version) + ",\"timestamp\":"@ + dec_of(timestamp) + "}"@
}

/// Writes the job metadata record: identifier, mode, target, the commit
/// the run started at, whether the tree was dirty, prompt version and
/// timestamp.
pub fn job_metadata_json(
    job_id: &str,
    mode: CouncilMode,
    target: &str,
    head_sha: &str,
    repo_dirty: bool,
    prompt_version: &str,
    timestamp: u64,
) -> (out: String)
    ensures
        out@ == spec_job_metadata_json(
            job_id@,
            mode,
            target@,
            head_sha@,
            repo_dirty,
            prompt_version@,
            timestamp as int,
        ),
{
    let mut out = String::from_str("{\"job_id\":");
    let a = json_string(job_id);
    out.append(a.as_str());
    out.append(",\"mode\":");
    let b = json_string(mode_name(mode));
    out.append(b.as_str());
    out.append(",\"target\":");
    let c = json_string(target);
    out.append(c.as_str());
    out.append(",\"head_sha_at_start\":");
    let d = json_string(head_sha);
    out.append(d.as_str());
    out.append(",\"repo_dirty_at_start\":");
    out.append(json_bool(repo_dirty));
    out.append(",\"prompt_version\":");
    let e = json_string(prompt_version);
    out.append(e.as_str());
    out.append(",\"timestamp\":");
    let f = u64_to_dec(timestamp);
    out.append(f.as_str());
    out.append("}");
    proof {
        assert(out@ =~= spec_job_metadata_json(
            job_id@,
            mode,
            target@,
            head_sha@,
            repo_dirty,
            prompt_version@,
            timestamp as int,
        ));
    }
    out
}

/// One file snapshot as a JSON object.
pub open spec fn spec_snapshot_json(s: FileSnapshot) -> Seq<char> {
    "{\"path\":"@ + spec_json_string(s.path@) + ",\"content\":"@ + spec_json_string(s.content@)
        + ",\"is_truncated\":"@ + spec_json_bool(s.is_truncated) + "}"@
}

/// Writes one file snapshot as JSON.
pub fn snapshot_json(s: &FileSnapshot) -> (out: String)
    ensures
        out@ == spec_snapshot_json(*s),
{
    let mut out = String::from_str("{\"path\":");
    let a = json_string(s.path.as_str());
    out.append(a.as_str());
    out.append(",\"content\":");
    let b = json_string(s.content.as_str());
    out.append(b.as_str());
    out.append(",\"is_truncated\":");
    out.append(json_bool(s.is_truncated));
    out.append("}");
    proof {
        assert(out@ =~= spec_snapshot_json(*s));
    }
    out
}

/// A snapshot list as a JSON array.
pub open spec fn spec_snapshots_json(ss: Seq<FileSnapshot>) -> Seq<char> {
    "["@ + join_with(ss.map_values(|s: FileSnapshot| spec_snapshot_json(s)), ","@) + "]"@
}

/// Writes a snapshot list as JSON.
pub fn snapshots_json(ss: &Vec<FileSnapshot>) -> (out: String)
    ensures
        out@ == spec_snapshots_json(ss@),
{
    let mut items: Vec<String> = Vec::new();
    let mut i: usize = 0;
    while i < ss.len()
        invariant
            0 <= i <= ss@.len(),
            items@.len() == i,
            forall|k: int| 0 <= k < i ==> (#[trigger] items@[k])@ == spec_snapshot_json(ss@[k]),
        decreases ss@.len() - i,
    {
        let item = snapshot_json(&ss[i]);
        items.push(item);
        i += 1;
    }
    let mut out = String::from_str("[");
    let joined = join_strings(&items, ",");
    proof {
        assert(items@.map_values(|p: String| p@) =~= ss@.map_values(
            |s: FileSnapshot| spec_snapshot_json(s),
        ));
    }
    out.append(joined.as_str());
    out.append("]");
    proof {
        assert(out@ =~= spec_snapshots_json(ss@));
    }
    out
}

/// One snippet as a JSON object.
pub open spec fn spec_snippet_json(s: Snippet) -> Seq<char> {
    "{\"line_start\":"@ + dec_of(s.line_start as int) + ",\"line_end\":"@ + dec_of(
        s.line_end as int,
    ) + ",\"content\":"@ + spec_json_string(s.content@) + "}"@
}

/// Writes one snippet as JSON.
pub fn snippet_json(s: &Snippet) -> (out: String)
    ensures
        out@ == spec_snippet_json(*s),
{
    let mut out = String::from_str("{\"line_start\":");
    let a = u64_to_dec(s.line_start as u64);
    out.append(a.as_str());
    out.append(",\"line_end\":");
    let b = u64_to_dec(s.line_end as u64);
    out.append(b.as_str());
    out.append(",\"content\":");
    let c = json_string(s.content.as_str());
    out.append(c.as_str());
    out.append("}");
    proof {
        assert(out@ =~= spec_snippet_json(*s));
    }
    out
}

/// A reverse-dependency entry as a JSON pair of path and snippet array.
pub open spec fn spec_reverse_dep_json(e: (String, Vec<Snippet>)) -> Seq<char> {
    spec_json_string(e.0@) + ":["@ + join_with(
        e.1@.map_values(|s: Snippet| spec_snippet_json(s)),
        ","@,
    ) + "]"@
}

/// Writes one reverse-dependency entry as JSON.
pub fn reverse_dep_json(path: &String, snippets: &Vec<Snippet>) -> (out: String)
    ensures
        out@ == spec_json_string(path@) + ":["@ + join_with(
            snippets@.map_values(|s: Snippet| spec_snippet_json(s)),
            ","@,
        ) + "]"@,
{
    let mut items: Vec<String> = Vec::new();
    let mut i: usize = 0;
    while i < snippets.len()
        invariant
            0 <= i <= snippets@.len(),
            items@.len() == i,
            forall|k: int|
                0 <= k < i ==> (#[trigger] items@[k])@ == spec_snippet_json(snippets@[k]),
        decreases snippets@.len() - i,
    {
        let item = snippet_json(&snippets[i]);
        items.push(item);
        i += 1;
    }
    let mut out = json_string(path.as_str());
    out.append(":[");
    let joined = join_strings(&items, ",");
    proof {
        assert(items@.map_values(|p: String| p@) =~= snippets@.map_values(
            |s: Snippet| spec_snippet_json(s),
        ));
    }
    out.append(joined.as_str());
    out.append("]");
    proof {
        assert(out@ =~= spec_json_string(path@) + ":["@ + join_with(
            snippets@.map_values(|s: Snippet| spec_snippet_json(s)),
            ","@,
        ) + "]"@);
    }
    out
}

/// The truncation record as a JSON object.
pub open spec fn spec_truncation_json(t: TruncationInfo) -> Seq<char> {
    "{\"omitted_files\":["@ + join_with(
        t.omitted_files@.map_values(|p: String| spec_json_string(p@)),
        ","@,
    ) + "],\"reason\":"@ + spec_json_string(t.reason@) + "}"@
}

/// Writes the truncation record as JSON.
pub fn truncation_json(t: &TruncationInfo) -> (out: String)
    ensures
        out@ == spec_truncation_json(*t),
{
    let mut items: Vec<String> = Vec::new();
    let mut i: usize = 0;
    while i < t.omitted_files.len()
        invariant
            0 <= i <= t.omitted_files@.len(),
            items@.len() == i,
            forall|k: int|
                0 <= k < i ==> (#[trigger] items@[k])@ == spec_json_string(t.omitted_files@[k]@),
        decreases t.omitted_files@.len() - i,
    {
        let item = json_string(t.omitted_files[i].as_str());
        items.push(item);
        i += 1;
    }
    let mut out = String::from_str("{\"omitted_files\":[");
    let joined = join_strings(&items, ",");
    proof {
        assert(items@.map_values(|p: String| p@) =~= t.omitted_files@.map_values(
            |p: String| spec_json_string(p@),
        ));
    }
    out.append(joined.as_str());
    out.append("],\"reason\":");
    let r = json_string(t.reason.as_str());
    out.append(r.as_str());
    out.append("}");
    proof {
        assert(out@ =~= spec_truncation_json(*t));
    }
    out
}

/// The context bundle as a JSON object.
pub open spec fn spec_bundle_json(b: ContextBundle) -> Seq<char> {
    "{\"target_files\":"@ + spec_snapshots_json(b.target_files@) + ",\"related_files\":"@
        + spec_snapshots_json(b.related_files@) + ",\"reverse_deps\":{"@ + join_with(
        b.reverse_deps@.map_values(|e: (String, Vec<Snippet>)| spec_reverse_dep_json(e)),
        ","@,
    ) + "},\"test_files\":"@ + spec_snapshots_json(b.test_files@) + ",\"truncation_info\":"@
        + spec_truncation_json(b.truncation_info) + "}"@
}

/// Writes the context bundle as JSON; the artifact format of the bundle
/// file.
pub fn bundle_json(b: &ContextBundle) -> (out: String)
    ensures
        out@ == spec_bundle_json(*b),
{
    let mut out = String::from_str("{\"target_files\":");
    let t = snapshots_json(&b.target_files);
    out.append(t.as_str());
    out.append(",\"related_files\":");
    let r = snapshots_json(&b.related_files);
    out.append(r.as_str());
    out.append(",\"reverse_deps\":{");
    let mut items: Vec<String> = Vec::new();
    let mut i: usize = 0;
    while i < b.reverse_deps.len()
        invariant
            0 <= i <= b.reverse_deps@.len(),
            items@.len() == i,
            forall|k: int|
                0 <= k < i ==> (#[trigger] items@[k])@ == spec_reverse_dep_json(b.reverse_deps@[k]),
        decreases b.reverse_deps@.len() - i,
    {
        let item = reverse_dep_json(&b.reverse_deps[i].0, &b.reverse_deps[i].1);
        items.push(item);
        proof {
            assert(items@[i as int]@ == spec_reverse_dep_json(b.reverse_deps@[i as int]));
        }
        i += 1;
    }
    let joined = join_strings(&items, ",");
    proof {
        assert(items@.map_values(|p: String| p@) =~= b.reverse_deps@.map_values(
            |e: (String, Vec<Snippet>)| spec_reverse_dep_json(e),
        ));
    }
    out.append(joined.as_str());
    out.append("},\"test_files\":");
    let f = snapshots_json(&b.test_files);
    out.append(f.as_str());
    out.append(",\"truncation_info\":");
    let tr = truncation_json(&b.truncation_info);
    out.append(tr.as_str());
    out.append("}");
    proof {
        assert(out@ =~= spec_bundle_json(*b));
    }
    out
}

} // verus!
