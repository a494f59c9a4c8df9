//! Cleanup planning: which run directories an invocation prunes. Runs are
//! ordered newest first; any run beyond the retention count or older than
//! the age limit is marked. Deleting directories and worktrees is
//! filesystem work and stays outside the library.

use vstd::prelude::*;
use vstd::seq_lib::group_to_multiset_ensures;

verus! {

/// How many of the newest runs are kept regardless of age.
pub const RETENTION_LIMIT: usize = 20;

/// How old a run may grow before it is pruned, in seconds.
pub const AGE_LIMIT_SECS: u64 = 24 * 60 * 60;

/// The entries ordered newest first.
pub open spec fn sorted_newest_first(entries: Seq<(String, u64)>) -> bool {
    forall|i: int, j: int| 0 <= i <= j < entries.len() ==> (#[trigger] entries[i]).1 >= (#[trigger] entries[j]).1
}

/// Orders run entries newest first; ties fall in either order.
pub fn sort_runs_newest_first(entries: Vec<(String, u64)>) -> (r: Vec<(String, u64)>)
    ensures
        r@.len() == entries@.len(),
        sorted_newest_first(r@),
        r@.to_multiset() == entries@.to_multiset(),
{
    broadcast use group_to_multiset_ensures;

    let ghost all = entries@;
    let mut rest = entries;
    let mut out: Vec<(String, u64)> = Vec::new();
    proof {
        assert(out@.to_multiset().add(rest@.to_multiset()) =~= all.to_multiset());
    }
    while rest.len() > 0
        invariant
            out@.to_multiset().add(rest@.to_multiset()) == all.to_multiset(),
            sorted_newest_first(out@),
            forall|i: int, j: int|
                0 <= i < out@.len() && 0 <= j < rest@.len() ==> (#[trigger] out@[i]).1 >= (
                #[trigger] rest@[j]).1,
        decreases rest@.len(),
    {
        let mut mx: usize = 0;
        let mut t: usize = 1;
        while t < rest.len()
            invariant
                0 < rest@.len(),
                0 <= mx < rest@.len(),
                mx < t,
                t <= rest@.len(),
                forall|j: int| 0 <= j < t ==> (#[trigger] rest@[j]).1 <= rest@[mx as int].1,
            decreases rest@.len() - t,
        {
            if rest[t].1 > rest[mx].1 {
                mx = t;
            }
            t += 1;
        }
        let ghost rest_before = rest@;
        let ghost out_before = out@;
        let e = rest.remove(mx);
        out.push(e);
        proof {
            broadcast use group_to_multiset_ensures;

            assert(rest@ == rest_before.remove(mx as int));
            assert(e == rest_before[mx as int]);
            assert(rest_before.remove(mx as int).to_multiset() =~= rest_before.to_multiset().remove(
                rest_before[mx as int],
            ));
            assert(out@ == out_before.push(e));
            assert(out_before.push(e).to_multiset() =~= out_before.to_multiset().insert(e));
            assert(rest@.to_multiset() =~= rest_before.to_multiset().remove(e));
            assert(out@.to_multiset() =~= out_before.to_multiset().insert(e));
            assert(out@.to_multiset().add(rest@.to_multiset()) =~= all.to_multiset());
            assert forall|i: int, j: int|
                0 <= i < out@.len() && 0 <= j < rest@.len() implies (#[trigger] out@[i]).1 >= (
            #[trigger] rest@[j]).1 by {
                if j < mx {
                    assert(rest@[j] == rest_before[j]);
                } else {
                    assert(rest@[j] == rest_before[j + 1]);
                }
                if i < out@.len() - 1 {
                    assert(out@[i] == out_before[i]);
                }
            }
        }
    }
    proof {
        broadcast use group_to_multiset_ensures;

        assert(rest@.to_multiset().len() == 0);
        assert(out@.to_multiset() =~= out@.to_multiset().add(rest@.to_multiset()));
        assert(out@.len() == out@.to_multiset().len());
        assert(all.len() == all.to_multiset().len());
    }
    out
}

/// The entry at rank `i` of the ordering is pruned: beyond the retention
/// count, or created at least the age limit before `now`.
pub open spec fn spec_entry_expired(entry: (String, u64), i: int, now: u64) -> bool {
    ||| i >= RETENTION_LIMIT
    ||| entry.1 <= now && now - entry.1 > AGE_LIMIT_SECS
}

/// The paths of the pruned entries, in order, from rank `i` on.
pub open spec fn spec_expired_paths(entries: Seq<(String, u64)>, now: u64, i: int) -> Seq<
    Seq<char>,
>
    decreases entries.len() - i when 0 <= i <= entries.len()
{
    if i >= entries.len() {
        Seq::empty()
    } else if spec_entry_expired(entries[i], i, now) {
        seq![entries[i].0@] + spec_expired_paths(entries, now, i + 1)
    } else {
        spec_expired_paths(entries, now, i + 1)
    }
}

/// Picks the runs to prune from entries ordered newest first: everything
/// at or beyond the retention count, and everything older than the age
/// limit.
pub fn select_expired_runs(entries: &Vec<(String, u64)>, now: u64) -> (r: Vec<String>)
    ensures
        r@.len() == spec_expired_paths(entries@, now, 0).len(),
        forall|k: int| 0 <= k < r@.len() ==> r@[k]@ == spec_expired_paths(entries@, now, 0)[k],
{
    let mut out: Vec<String> = Vec::new();
    let mut i: usize = 0;
    while i < entries.len()
        invariant
            0 <= i <= entries@.len(),
            spec_expired_paths(entries@, now, 0).len() == out@.len() + spec_expired_paths(
                entries@,
                now,
                i as int,
            ).len(),
            forall|k: int|
                0 <= k < out@.len() ==> out@[k]@ == spec_expired_paths(entries@, now, 0)[k],
            forall|k: int|
                0 <= k < spec_expired_paths(entries@, now, i as int).len()
                    ==> #[trigger] spec_expired_paths(entries@, now, i as int)[k]
                    == spec_expired_paths(entries@, now, 0)[out@.len() + k],
        decreases entries@.len() - i,
    {
        let ghost pending = spec_expired_paths(entries@, now, i as int);
        let ghost done = out@.len() as int;
        let old_enough = entries[i].1 <= now && now - entries[i].1 > AGE_LIMIT_SECS;
        if i >= RETENTION_LIMIT || old_enough {
            out.push(entries[i].0.clone());
            proof {
                assert(pending == seq![entries@[i as int].0@] + spec_expired_paths(
                    entries@,
                    now,
                    i + 1,
                ));
                assert forall|k: int| 0 <= k < out@.len() implies out@[k]@ == spec_expired_paths(
                    entries@,
                    now,
                    0,
                )[k] by {
                    if k == done {
                        assert(spec_expired_paths(entries@, now, 0)[k] == pending[0]);
                    }
                }
                assert forall|k: int|
                    0 <= k < spec_expired_paths(entries@, now, i + 1).len()
                        implies #[trigger] spec_expired_paths(entries@, now, i + 1)[k]
                    == spec_expired_paths(entries@, now, 0)[out@.len() + k] by {
                    assert(spec_expired_paths(entries@, now, i + 1)[k] == pending[k + 1]);
                    assert(pending[k + 1] == spec_expired_paths(entries@, now, 0)[done + k + 1]);
                }
            }
        } else {
            proof {
                assert(pending == spec_expired_paths(entries@, now, i + 1));
            }
        }
        i += 1;
    }
    out
}

/// The worktree path that belongs to a run directory: the run's name
/// under `.council/worktrees` beside `.council/runs`.
pub fn worktree_path_for_run(repo_root: &str, run_id: &str) -> (r: String)
    ensures
        r@ == repo_root@ + "/.council/worktrees/"@ + run_id@,
{
    let mut out = String::from_str(repo_root);
    out.append("/.council/worktrees/");
    out.append(run_id);
    out
}

} // verus!
