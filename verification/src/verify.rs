//! Verification planning: project-kind detection by the nearest build
//! manifest, the fixed command suites, and baseline/final failure counts.
//! Running the commands is subprocess work and stays outside the library;
//! it hands back one `VerifyResult` per command.

use vstd::prelude::*;
use crate::text::join_with;
use crate::text::join_strings;
use crate::text::rfind_char_before;
use crate::text::rfind_char_at;
use crate::text::starts_with;
use crate::text::starts_with_str;
use crate::text::str_eq;

verus! {

/// Outcome of one verification command.
#[derive(Debug, Clone)]
pub struct VerifyResult {
    pub command: String,
    pub success: bool,
    pub stdout: String,
    pub stderr: String,
}

/// Plans the verification suite for a worktree.
pub struct Verifier;

/// One planned command: a program and its arguments.
#[derive(Debug, Clone)]
pub struct VerifyCommand {
    pub program: String,
    pub args: Vec<String>,
}

impl VerifyCommand {
    /// The display form: the program and its arguments separated by
    /// single spaces.
    pub fn display(&self) -> (r: String)
        ensures
            r@ == self.program@ + " "@ + join_with(self.args@.map_values(|a: String| a@), " "@),
    {
        let mut out = self.program.clone();
        out.append(" ");
        let joined = join_strings(&self.args, " ");
        out.append(joined.as_str());
        out
    }
}

impl Verifier {
    /// The commands run against a worktree: with a build manifest,
    /// `cargo check` then `cargo test`, both offline against that
    /// manifest; without one, the interpreted defaults `ruff format .`,
    /// `ruff check .`, `pytest -q`, in that order.
    pub fn command_plan(manifest: Option<&String>) -> (r: Vec<VerifyCommand>)
        ensures
            match manifest {
                Some(m) => {
                    &&& r@.len() == 2
                    &&& r@[0].program@ == "cargo"@
                    &&& r@[0].args@.map_values(|a: String| a@) == seq![
                        "check"@,
                        "--offline"@,
                        "--manifest-path"@,
                        m@,
                    ]
                    &&& r@[1].program@ == "cargo"@
                    &&& r@[1].args@.map_values(|a: String| a@) == seq![
                        "test"@,
                        "--offline"@,
                        "--manifest-path"@,
                        m@,
                    ]
                },
                None => {
                    &&& r@.len() == 3
                    &&& r@[0].program@ == "ruff"@
                    &&& r@[0].args@.map_values(|a: String| a@) == seq!["format"@, "."@]
                    &&& r@[1].program@ == "ruff"@
                    &&& r@[1].args@.map_values(|a: String| a@) == seq!["check"@, "."@]
                    &&& r@[2].program@ == "pytest"@
                    &&& r@[2].args@.map_values(|a: String| a@) == seq!["-q"@]
                },
            },
    {
        let mut out: Vec<VerifyCommand> = Vec::new();
        match manifest {
            Some(m) => {
                let mut check_args: Vec<String> = Vec::new();
                check_args.push(String::from_str("check"));
                check_args.push(String::from_str("--offline"));
                check_args.push(String::from_str("--manifest-path"));
                check_args.push(m.clone());
                out.push(VerifyCommand { program: String::from_str("cargo"), args: check_args });
                let mut test_args: Vec<String> = Vec::new();
                test_args.push(String::from_str("test"));
                test_args.push(String::from_str("--offline"));
                test_args.push(String::from_str("--manifest-path"));
                test_args.push(m.clone());
                out.push(VerifyCommand { program: String::from_str("cargo"), args: test_args });
                proof {
                    assert(out@[0].args@.map_values(|a: String| a@) =~= seq![
                        "check"@,
                        "--offline"@,
                        "--manifest-path"@,
                        m@,
                    ]);
                    assert(out@[1].args@.map_values(|a: String| a@) =~= seq![
                        "test"@,
                        "--offline"@,
                        "--manifest-path"@,
                        m@,
                    ]);
                }
            },
            None => {
                let mut fmt_args: Vec<String> = Vec::new();
                fmt_args.push(String::from_str("format"));
                fmt_args.push(String::from_str("."));
                out.push(VerifyCommand { program: String::from_str("ruff"), args: fmt_args });
                let mut chk_args: Vec<String> = Vec::new();
                chk_args.push(String::from_str("check"));
                chk_args.push(String::from_str("."));
                out.push(VerifyCommand { program: String::from_str("ruff"), args: chk_args });
                let mut test_args: Vec<String> = Vec::new();
                test_args.push(String::from_str("-q"));
                out.push(VerifyCommand { program: String::from_str("pytest"), args: test_args });
                proof {
                    assert(out@[0].args@.map_values(|a: String| a@) =~= seq!["format"@, "."@]);
                    assert(out@[1].args@.map_values(|a: String| a@) =~= seq!["check"@, "."@]);
                    assert(out@[2].args@.map_values(|a: String| a@) =~= seq!["-q"@]);
                }
            },
        }
        out
    }
}

/// The directory above `p`, with paths as plain `/`-separated strings:
/// the text before the last `/`, the empty text when `p` has none, and
/// nothing when `p` is empty.
pub open spec fn spec_parent_dir(p: Seq<char>) -> Option<Seq<char>> {
    if p.len() == 0 {
        None
    } else {
        match rfind_char_before(p, '/', p.len() as int) {
            Some(j) => Some(p.subrange(0, j)),
            None => Some(Seq::empty()),
        }
    }
}

/// `Cargo.toml` inside `dir`.
pub open spec fn spec_join_manifest(dir: Seq<char>) -> Seq<char> {
    if dir.len() == 0 {
        "Cargo.toml"@
    } else {
        dir + "/Cargo.toml"@
    }
}

/// The manifest paths tried for `dir`, nearest first: one per ancestor of
/// `dir` that still lies under `root`, stopping at `root` itself.
pub open spec fn spec_manifest_candidates(root: Seq<char>, dir: Seq<char>) -> Seq<Seq<char>>
    decreases dir.len() via spec_manifest_candidates_decreases
{
    if !starts_with(dir, root) {
        Seq::empty()
    } else if dir == root {
        seq![spec_join_manifest(dir)]
    } else {
        match spec_parent_dir(dir) {
            None => seq![spec_join_manifest(dir)],
            Some(par) => seq![spec_join_manifest(dir)] + spec_manifest_candidates(root, par),
        }
    }
}

#[via_fn]
proof fn spec_manifest_candidates_decreases(root: Seq<char>, dir: Seq<char>) {
    if dir.len() > 0 {
        crate::text::lemma_rfind_char_before(dir, '/', dir.len() as int);
    }
}

fn parent_dir_exec(p: &str) -> (r: Option<String>)
    ensures
        match r {
            Some(d) => spec_parent_dir(p@) == Some(d@),
            None => spec_parent_dir(p@) is None,
        },
{
    let n = p.unicode_len();
    if n == 0 {
        return None;
    }
    match rfind_char_at(p, '/', n) {
        Some(j) => Some(String::from_str(p.substring_char(0, j))),
        None => {
            let r = String::new();
            assert(r@ =~= Seq::<char>::empty());
            Some(r)
        },
    }
}

fn join_manifest(dir: &str) -> (r: String)
    ensures
        r@ == spec_join_manifest(dir@),
{
    if dir.unicode_len() == 0 {
        String::from_str("Cargo.toml")
    } else {
        let mut out = String::from_str(dir);
        out.append("/Cargo.toml");
        out
    }
}

/// Whether some entry of `v` equals `s`.
pub fn contains_str(v: &Vec<String>, s: &str) -> (r: bool)
    ensures
        r == exists|i: int| 0 <= i < v@.len() && (#[trigger] v@[i])@ == s@,
{
    let mut i: usize = 0;
    while i < v.len()
        invariant
            0 <= i <= v@.len(),
            forall|j: int| 0 <= j < i ==> (#[trigger] v@[j])@ != s@,
        decreases v@.len() - i,
    {
        if str_eq(v[i].as_str(), s) {
            return true;
        }
        i += 1;
    }
    false
}

/// The first candidate manifest that exists, walking from the target's
/// directory up to the worktree root. Which paths hold a manifest is
/// handed in as `existing`.
pub open spec fn spec_first_existing(cands: Seq<Seq<char>>, existing: Seq<Seq<char>>, i: int) -> Option<
    Seq<char>,
>
    decreases cands.len() - i when 0 <= i <= cands.len()
{
    if i >= cands.len() {
        None
    } else if existing.contains(cands[i]) {
        Some(cands[i])
    } else {
        spec_first_existing(cands, existing, i + 1)
    }
}

/// Finds the nearest `Cargo.toml` at or above the target, within the
/// worktree root. `existing` lists the paths known to hold one.
pub fn find_nearest_cargo_toml(
    worktree_root: &str,
    target: &str,
    target_is_dir: bool,
    existing: &Vec<String>,
) -> (r: Option<String>)
    ensures
        ({
            let start = if target_is_dir {
                Some(target@)
            } else {
                spec_parent_dir(target@)
            };
            match start {
                None => r is None,
                Some(d) => {
                    let cands = spec_manifest_candidates(worktree_root@, d);
                    match r {
                        Some(m) => spec_first_existing(
                            cands,
                            existing@.map_values(|e: String| e@),
                            0,
                        ) == Some(m@),
                        None => spec_first_existing(
                            cands,
                            existing@.map_values(|e: String| e@),
                            0,
                        ) is None,
                    }
                },
            }
        }),
{
    let start: String = if target_is_dir {
        String::from_str(target)
    } else {
        match parent_dir_exec(target) {
            None => {
                return None;
            },
            Some(d) => d,
        }
    };
    let ghost exv = existing@.map_values(|e: String| e@);
    let mut dir = start;
    let ghost cands = spec_manifest_candidates(worktree_root@, dir@);
    let mut found: Option<String> = None;
    loop
        invariant
            found is None,
            spec_first_existing(cands, exv, 0) == spec_first_existing(
                spec_manifest_candidates(worktree_root@, dir@),
                exv,
                0,
            ),
            exv == existing@.map_values(|e: String| e@),
            ({
                let start0 = if target_is_dir {
                    Some(target@)
                } else {
                    spec_parent_dir(target@)
                };
                start0 is Some && cands == spec_manifest_candidates(
                    worktree_root@,
                    start0->Some_0,
                )
            }),
        decreases dir@.len() + 1,
    {
        proof {
            if dir@.len() > 0 {
                crate::text::lemma_rfind_char_before(dir@, '/', dir@.len() as int);
            }
        }
        if !starts_with_str(dir.as_str(), worktree_root) {
            proof {
                assert(spec_manifest_candidates(worktree_root@, dir@) =~= Seq::<Seq<char>>::empty());
                assert(spec_first_existing(Seq::<Seq<char>>::empty(), exv, 0) is None);
            }
            return None;
        }
        let cand = join_manifest(dir.as_str());
        let ghost here = spec_manifest_candidates(worktree_root@, dir@);
        if contains_str(existing, cand.as_str()) {
            proof {
                assert(here[0] == cand@);
                let w = choose|w: int| 0 <= w < existing@.len() && (#[trigger] existing@[w])@
                    == cand@;
                assert(exv[w] == cand@);
                assert(exv.contains(cand@));
                assert(spec_first_existing(here, exv, 0) == Some(cand@));
            }
            return Some(cand);
        }
        proof {
            assert(!exv.contains(cand@)) by {
                if exv.contains(cand@) {
                    let w = choose|w: int| 0 <= w < exv.len() && exv[w] == cand@;
                    assert(existing@.map_values(|e: String| e@)[w] == existing@[w]@);
                }
            }
        }
        if str_eq(dir.as_str(), worktree_root) {
            proof {
                assert(here =~= seq![spec_join_manifest(dir@)]);
                assert(spec_first_existing(here, exv, 0) == spec_first_existing(here, exv, 1));
            }
            return None;
        }
        match parent_dir_exec(dir.as_str()) {
            None => {
                proof {
                    assert(here =~= seq![spec_join_manifest(dir@)]);
                    assert(spec_first_existing(here, exv, 0) == spec_first_existing(here, exv, 1));
                }
                return None;
            },
            Some(par) => {
                proof {
                    let parc = spec_manifest_candidates(worktree_root@, par@);
                    assert(here == seq![spec_join_manifest(dir@)] + parc);
                    assert forall|k: int| 0 <= k < parc.len() implies #[trigger] parc[k] == here[k
                        + 1] by {}
                    lemma_first_existing_shift(here, parc, exv);
                }
                dir = par;
            },
        }
    }
}

proof fn lemma_first_existing_shift(here: Seq<Seq<char>>, parc: Seq<Seq<char>>, exv: Seq<Seq<char>>)
    requires
        here.len() == parc.len() + 1,
        forall|k: int| 0 <= k < parc.len() ==> #[trigger] parc[k] == here[k + 1],
        !exv.contains(here[0]),
    ensures
        spec_first_existing(here, exv, 0) == spec_first_existing(parc, exv, 0),
{
    lemma_first_existing_shift_from(here, parc, exv, 0);
}

proof fn lemma_first_existing_shift_from(
    here: Seq<Seq<char>>,
    parc: Seq<Seq<char>>,
    exv: Seq<Seq<char>>,
    i: int,
)
    requires
        here.len() == parc.len() + 1,
        forall|k: int| 0 <= k < parc.len() ==> #[trigger] parc[k] == here[k + 1],
        0 <= i <= parc.len(),
    ensures
        spec_first_existing(here, exv, i + 1) == spec_first_existing(parc, exv, i),
    decreases parc.len() - i,
{
    if i < parc.len() {
        lemma_first_existing_shift_from(here, parc, exv, i + 1);
    }
}

/// The number of failed results.
pub open spec fn spec_failure_count(rs: Seq<VerifyResult>) -> int {
    rs.filter(|r: VerifyResult| !r.success).len() as int
}

/// Counts the results whose command failed.
pub fn count_failures(results: &Vec<VerifyResult>) -> (r: usize)
    ensures
        r as int == spec_failure_count(results@),
{
    let ghost all = results@;
    let mut count: usize = 0;
    let mut i: usize = 0;
    proof {
        reveal(Seq::filter);
        assert(all.take(0) =~= Seq::<VerifyResult>::empty());
    }
    while i < results.len()
        invariant
            0 <= i <= all.len(),
            all == results@,
            count as int == all.take(i as int).filter(|r: VerifyResult| !r.success).len(),
            count <= i,
        decreases all.len() - i,
    {
        proof {
            assert(all.take(i + 1).drop_last() =~= all.take(i as int));
            assert(all.take(i + 1).last() == all[i as int]);
            reveal(Seq::filter);
        }
        if !results[i].success {
            count += 1;
        }
        i += 1;
    }
    proof {
        assert(all.take(all.len() as int) =~= all);
    }
    count
}

} // verus!
