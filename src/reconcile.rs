//! Facts about reconciliation passes.
use vstd::prelude::*;

use crate::config::{placeholder_entry, EntryModel};
use crate::editor::{editor_from, TabModel};
use crate::matching::{first_match, is_first, lemma_first_after_remove, lemma_first_match};
use crate::monitors::MonitorModel;
use crate::session::{
    claim_step, entry_named, reconciled_saved, reconciled_tabs, run_pass, start_pass, tab_named,
    unassigned, Pass,
};

verus! {

/// No two saved entries name the same monitor.
pub open spec fn distinct_names(s: Seq<EntryModel>) -> bool {
    forall|i: int, j: int|
        0 <= i < j < s.len() && s[i].monitor is Some ==> #[trigger] s[i].monitor
            != #[trigger] s[j].monitor
}

/// No entry of `s` names a monitor of `ms`.
pub open spec fn none_named(s: Seq<EntryModel>, ms: Seq<MonitorModel>) -> bool {
    forall|i: int, k: int|
        0 <= i < s.len() && 0 <= k < ms.len() ==> #[trigger] s[i].monitor != Some(
            #[trigger] ms[k].name,
        )
}

proof fn lemma_remove_keeps_distinct(s: Seq<EntryModel>, r: int)
    requires
        distinct_names(s),
        0 <= r < s.len(),
    ensures
        distinct_names(s.remove(r)),
{
    let t = s.remove(r);
    assert forall|i: int, j: int|
        0 <= i < j < t.len() && t[i].monitor is Some implies #[trigger] t[i].monitor
        != #[trigger] t[j].monitor by {
        let i0 = if i < r {
            i
        } else {
            i + 1
        };
        let j0 = if j < r {
            j
        } else {
            j + 1
        };
        assert(t[i] == s[i0] && t[j] == s[j0] && i0 < j0);
    }
}

/// A pass builds one tab per monitor, in order, each bound to its monitor.
proof fn lemma_pass_tabs(st: Pass, ms: Seq<MonitorModel>)
    requires
        st.rebuilt.len() == 0,
    ensures
        run_pass(st, ms).rebuilt.len() == ms.len(),
        forall|k: int| 0 <= k < ms.len() ==> #[trigger] run_pass(st, ms).rebuilt[k].monitor == ms[k],
    decreases ms.len(),
{
    if ms.len() > 0 {
        lemma_pass_tabs(st, ms.drop_last());
    }
}

/// With distinct names, a pass leaves no saved entry that names one of the
/// monitors it handled.
proof fn lemma_pass_claims_names(st: Pass, ms: Seq<MonitorModel>)
    requires
        distinct_names(st.remaining),
    ensures
        distinct_names(run_pass(st, ms).remaining),
        none_named(run_pass(st, ms).remaining, ms),
    decreases ms.len(),
{
    if ms.len() > 0 {
        let prev = run_pass(st, ms.drop_last());
        lemma_pass_claims_names(st, ms.drop_last());
        let m = ms.last();
        let e = first_match(prev.remaining, entry_named(m.name));
        lemma_first_match(prev.remaining, entry_named(m.name));
        lemma_first_match(prev.existing, tab_named(m.name));
        let next = run_pass(st, ms);
        if e >= 0 {
            lemma_remove_keeps_distinct(prev.remaining, e);
            assert(next.remaining == prev.remaining.remove(e));
            assert forall|i: int, k: int|
                0 <= i < next.remaining.len() && 0 <= k < ms.len() implies #[trigger] next.remaining[i].monitor
                != Some(#[trigger] ms[k].name) by {
                let i0 = if i < e {
                    i
                } else {
                    i + 1
                };
                assert(next.remaining[i] == prev.remaining[i0]);
                if k < ms.len() - 1 {
                    assert(ms.drop_last()[k] == ms[k]);
                } else {
                    assert(prev.remaining[e].monitor == Some(m.name));
                    if i0 < e {
                        assert(prev.remaining[i0].monitor != prev.remaining[e].monitor);
                    } else {
                        assert(prev.remaining[e].monitor != prev.remaining[i0].monitor);
                    }
                }
            }
        } else {
            assert(next.remaining == prev.remaining);
            assert forall|i: int, k: int|
                0 <= i < next.remaining.len() && 0 <= k < ms.len() implies #[trigger] next.remaining[i].monitor
                != Some(#[trigger] ms[k].name) by {
                if k < ms.len() - 1 {
                    assert(ms.drop_last()[k] == ms[k]);
                } else {
                    assert(!(entry_named(m.name))(prev.remaining[i]));
                }
            }
        }
    }
}

/// A second pass over tabs that already match the monitors one to one, with
/// no saved entry naming any of them, rebuilds the same tabs.
proof fn lemma_second_pass(st: Pass, t1: Seq<TabModel>, ms: Seq<MonitorModel>, i: int)
    requires
        0 <= i <= ms.len(),
        t1.len() == ms.len(),
        forall|k: int| 0 <= k < ms.len() ==> #[trigger] t1[k].monitor == ms[k],
        st.existing == t1,
        st.rebuilt.len() == 0,
        none_named(st.remaining, ms),
    ensures
        run_pass(st, ms.subrange(0, i)) == (Pass {
            existing: t1.subrange(i, t1.len() as int),
            remaining: st.remaining,
            donor: st.donor,
            rebuilt: t1.subrange(0, i),
        }),
    decreases i,
{
    if i == 0 {
        assert(t1.subrange(0, t1.len() as int) =~= t1);
        assert(t1.subrange(0, 0) =~= st.rebuilt);
    } else {
        lemma_second_pass(st, t1, ms, i - 1);
        let sub = ms.subrange(0, i);
        assert(sub.drop_last() =~= ms.subrange(0, i - 1));
        let prev = run_pass(st, ms.subrange(0, i - 1));
        let m = ms[i - 1];
        assert(sub.last() == m);
        let ex = prev.existing;
        lemma_first_match(ex, tab_named(m.name));
        assert(is_first(ex, tab_named(m.name), 0));
        lemma_first_match(prev.remaining, entry_named(m.name));
        if first_match(prev.remaining, entry_named(m.name)) >= 0 {
            let e = first_match(prev.remaining, entry_named(m.name));
            assert(prev.remaining[e].monitor != Some(ms[i - 1].name));
        }
        assert(ex.remove(0) =~= t1.subrange(i, t1.len() as int));
        assert(t1.subrange(0, i - 1).push(TabModel { monitor: m, editor: ex[0].editor })
            =~= t1.subrange(0, i));
    }
}

/// Reconciling again with the same monitors and no edits in between leaves
/// every tab as it is, dirty flags included.  (Saved entries are assumed to
/// name distinct monitors: with two saved entries for one connected monitor
/// the second one refreshes that monitor's clean tab on the next pass.)
pub proof fn lemma_reconcile_idempotent(
    tabs: Seq<TabModel>,
    saved: Seq<EntryModel>,
    ms: Seq<MonitorModel>,
)
    requires
        distinct_names(saved),
    ensures
        reconciled_tabs(reconciled_tabs(tabs, saved, ms), reconciled_saved(tabs, saved, ms), ms)
            == reconciled_tabs(tabs, saved, ms),
{
    let s0 = start_pass(tabs, saved);
    lemma_first_match(saved, unassigned());
    let u = first_match(saved, unassigned());
    if u >= 0 {
        lemma_remove_keeps_distinct(saved, u);
    }
    let first = run_pass(s0, ms);
    lemma_pass_tabs(s0, ms);
    lemma_pass_claims_names(s0, ms);
    let t1 = first.rebuilt;
    let r1 = reconciled_saved(tabs, saved, ms);
    assert(none_named(r1, ms)) by {
        assert forall|i: int, k: int|
            0 <= i < r1.len() && 0 <= k < ms.len() implies #[trigger] r1[i].monitor != Some(
            #[trigger] ms[k].name,
        ) by {
            if i < first.remaining.len() {
                assert(r1[i] == first.remaining[i]);
            } else {
                assert(first.donor is Some);
                assert(r1[i] == first.donor->0);
                if u >= 0 {
                    assert((unassigned())(saved[u]));
                }
                lemma_donor_unassigned(s0, ms);
            }
        }
    }
    let s1 = start_pass(t1, r1);
    lemma_first_match(r1, unassigned());
    let u1 = first_match(r1, unassigned());
    assert(none_named(s1.remaining, ms)) by {
        if u1 >= 0 {
            assert forall|i: int, k: int|
                0 <= i < s1.remaining.len() && 0 <= k < ms.len() implies #[trigger] s1.remaining[i].monitor
                != Some(#[trigger] ms[k].name) by {
                let i0 = if i < u1 {
                    i
                } else {
                    i + 1
                };
                assert(s1.remaining[i] == r1[i0]);
            }
        }
    }
    lemma_second_pass(s1, t1, ms, ms.len() as int);
    assert(ms.subrange(0, ms.len() as int) =~= ms);
    assert(t1.subrange(0, ms.len() as int) =~= t1);
}

/// The donor of a pass, while unclaimed, is the unassigned entry it started with.
proof fn lemma_donor_unassigned(st: Pass, ms: Seq<MonitorModel>)
    requires
        st.donor matches Some(d) ==> d.monitor is None,
    ensures
        run_pass(st, ms).donor matches Some(d) ==> d.monitor is None,
    decreases ms.len(),
{
    if ms.len() > 0 {
        lemma_donor_unassigned(st, ms.drop_last());
    }
}

/// Once a pass has handed out its donor, it has none for later monitors.
proof fn lemma_donor_stays_claimed(st: Pass, ms: Seq<MonitorModel>, i: int, j: int)
    requires
        0 <= i <= j <= ms.len(),
        run_pass(st, ms.subrange(0, i)).donor is None,
    ensures
        run_pass(st, ms.subrange(0, j)).donor is None,
    decreases j - i,
{
    if i < j {
        lemma_donor_stays_claimed(st, ms, i, j - 1);
        assert(ms.subrange(0, j).drop_last() =~= ms.subrange(0, j - 1));
    }
}

/// The monitor at position `i` of `ms` takes the donor in this pass.
pub open spec fn claims_donor(st: Pass, ms: Seq<MonitorModel>, i: int) -> bool {
    &&& run_pass(st, ms.subrange(0, i)).donor is Some
    &&& run_pass(st, ms.subrange(0, i + 1)).donor is None
}

/// In one pass the unassigned saved entry is taken by at most one monitor,
/// however many monitors have no saved entry of their own.
pub proof fn lemma_donor_claimed_at_most_once(
    tabs: Seq<TabModel>,
    saved: Seq<EntryModel>,
    ms: Seq<MonitorModel>,
    i: int,
    j: int,
)
    requires
        0 <= i < j < ms.len(),
    ensures
        !(claims_donor(start_pass(tabs, saved), ms, i) && claims_donor(
            start_pass(tabs, saved),
            ms,
            j,
        )),
{
    let st = start_pass(tabs, saved);
    if claims_donor(st, ms, i) {
        lemma_donor_stays_claimed(st, ms, i + 1, j);
    }
}

/// A monitor whose previous tab has unsaved edits keeps that tab's editor
/// even when a saved entry of the same name is on disk; a tab without
/// unsaved edits is refreshed from that entry.
pub proof fn lemma_dirty_tab_kept(st: Pass, m: MonitorModel)
    requires
        first_match(st.existing, tab_named(m.name)) >= 0,
        first_match(st.remaining, entry_named(m.name)) >= 0,
    ensures
        ({
            let prev = st.existing[first_match(st.existing, tab_named(m.name))];
            let entry = st.remaining[first_match(st.remaining, entry_named(m.name))];
            claim_step(st, m).rebuilt.last().editor == if prev.editor.dirty {
                prev.editor
            } else {
                editor_from(Some(entry))
            }
        }),
{
}

/// No two live monitors share a name.
pub open spec fn distinct_monitor_names(ms: Seq<MonitorModel>) -> bool {
    forall|i: int, j: int| 0 <= i < j < ms.len() ==> #[trigger] ms[i].name != #[trigger] ms[j].name
}

/// The same first element satisfies `p` in `a` and in `b` (or none does in either).
pub open spec fn same_first<A>(a: Seq<A>, b: Seq<A>, p: spec_fn(A) -> bool) -> bool {
    &&& (first_match(a, p) >= 0) == (first_match(b, p) >= 0)
    &&& first_match(b, p) >= 0 ==> a[first_match(a, p)] == b[first_match(b, p)]
}

/// Monitors of other names leave the first tab and the first saved entry
/// named `n` as they were.
proof fn lemma_pass_keeps_name(st: Pass, ms: Seq<MonitorModel>, n: Seq<char>)
    requires
        forall|k: int| 0 <= k < ms.len() ==> (#[trigger] ms[k]).name != n,
    ensures
        same_first(run_pass(st, ms).existing, st.existing, tab_named(n)),
        same_first(run_pass(st, ms).remaining, st.remaining, entry_named(n)),
    decreases ms.len(),
{
    if ms.len() > 0 {
        let rest = ms.drop_last();
        assert forall|k: int| 0 <= k < rest.len() implies (#[trigger] rest[k]).name != n by {
            assert(rest[k] == ms[k]);
        }
        lemma_pass_keeps_name(st, rest, n);
        let prev = run_pass(st, rest);
        let m = ms.last();
        assert(m.name != n);
        let t = first_match(prev.existing, tab_named(m.name));
        let e = first_match(prev.remaining, entry_named(m.name));
        lemma_first_match(prev.existing, tab_named(m.name));
        lemma_first_match(prev.remaining, entry_named(m.name));
        if t >= 0 {
            assert(!(tab_named(n))(prev.existing[t]));
            lemma_first_after_remove(prev.existing, tab_named(n), t);
        }
        if e >= 0 {
            assert(!(entry_named(n))(prev.remaining[e]));
            lemma_first_after_remove(prev.remaining, entry_named(n), e);
        }
    }
}

/// The tab a pass builds for monitor `j` is the one its `j`-th turn built.
proof fn lemma_rebuilt_stable(st: Pass, ms: Seq<MonitorModel>, j: int)
    requires
        st.rebuilt.len() == 0,
        0 <= j < ms.len(),
    ensures
        run_pass(st, ms).rebuilt[j] == claim_step(run_pass(st, ms.subrange(0, j)), ms[j]).rebuilt.last(),
    decreases ms.len(),
{
    lemma_pass_tabs(st, ms.subrange(0, j));
    if j == ms.len() - 1 {
        assert(ms.drop_last() =~= ms.subrange(0, j));
    } else {
        let rest = ms.drop_last();
        lemma_pass_tabs(st, rest);
        lemma_rebuilt_stable(st, rest, j);
        assert(rest.subrange(0, j) =~= ms.subrange(0, j));
        assert(rest[j] == ms[j]);
    }
}

/// When monitor `j` takes its turn, the first tab and the first saved entry
/// of its name are those of the reconciliation's input.
proof fn lemma_turn_sees_input(
    tabs: Seq<TabModel>,
    saved: Seq<EntryModel>,
    ms: Seq<MonitorModel>,
    j: int,
)
    requires
        distinct_monitor_names(ms),
        0 <= j < ms.len(),
    ensures
        same_first(
            run_pass(start_pass(tabs, saved), ms.subrange(0, j)).existing,
            tabs,
            tab_named(ms[j].name),
        ),
        same_first(
            run_pass(start_pass(tabs, saved), ms.subrange(0, j)).remaining,
            saved,
            entry_named(ms[j].name),
        ),
{
    let st = start_pass(tabs, saved);
    let n = ms[j].name;
    let before = ms.subrange(0, j);
    assert forall|k: int| 0 <= k < before.len() implies (#[trigger] before[k]).name != n by {
        assert(before[k] == ms[k]);
    }
    lemma_pass_keeps_name(st, before, n);
    lemma_first_match(saved, unassigned());
    let u = first_match(saved, unassigned());
    if u >= 0 {
        assert(!(entry_named(n))(saved[u]));
        lemma_first_after_remove(saved, entry_named(n), u);
    }
}

/// Monitor `m` has no previous tab and no saved entry of its name.
pub open spec fn unmatched(tabs: Seq<TabModel>, saved: Seq<EntryModel>, m: MonitorModel) -> bool {
    first_match(tabs, tab_named(m.name)) < 0 && first_match(saved, entry_named(m.name)) < 0
}

/// Some monitor before position `i` is unmatched.
pub open spec fn unmatched_before(
    tabs: Seq<TabModel>,
    saved: Seq<EntryModel>,
    ms: Seq<MonitorModel>,
    i: int,
) -> bool {
    exists|k: int| 0 <= k < i && unmatched(tabs, saved, #[trigger] ms[k])
}

proof fn lemma_donor_state(tabs: Seq<TabModel>, saved: Seq<EntryModel>, ms: Seq<MonitorModel>, i: int)
    requires
        distinct_monitor_names(ms),
        0 <= i <= ms.len(),
    ensures
        run_pass(start_pass(tabs, saved), ms.subrange(0, i)).donor == if unmatched_before(
            tabs,
            saved,
            ms,
            i,
        ) {
            None
        } else {
            start_pass(tabs, saved).donor
        },
    decreases i,
{
    let st = start_pass(tabs, saved);
    if i == 0 {
        assert(ms.subrange(0, 0) =~= Seq::<MonitorModel>::empty());
    } else {
        lemma_donor_state(tabs, saved, ms, i - 1);
        assert(ms.subrange(0, i).drop_last() =~= ms.subrange(0, i - 1));
        let pre = run_pass(st, ms.subrange(0, i - 1));
        let m = ms[i - 1];
        lemma_turn_sees_input(tabs, saved, ms, i - 1);
        if unmatched(tabs, saved, m) {
            assert(unmatched_before(tabs, saved, ms, i));
        } else {
            assert(unmatched_before(tabs, saved, ms, i) == unmatched_before(tabs, saved, ms, i - 1))
                by {
                if unmatched_before(tabs, saved, ms, i) {
                    let k = choose|k: int| 0 <= k < i && unmatched(tabs, saved, #[trigger] ms[k]);
                    assert(k < i - 1);
                }
            }
        }
    }
}

/// In one pass the unassigned saved entry goes to the first monitor that has
/// neither a previous tab nor a saved entry of its name; every later such
/// monitor gets a placeholder.  (Monitor names are assumed distinct.)
pub proof fn lemma_donor_goes_to_first_unmatched(
    tabs: Seq<TabModel>,
    saved: Seq<EntryModel>,
    ms: Seq<MonitorModel>,
    j: int,
)
    requires
        distinct_monitor_names(ms),
        0 <= j < ms.len(),
        unmatched(tabs, saved, ms[j]),
    ensures
        ({
            let u = first_match(saved, unassigned());
            let tab = reconciled_tabs(tabs, saved, ms)[j];
            &&& tab.monitor == ms[j]
            &&& tab.editor == if u >= 0 && !unmatched_before(tabs, saved, ms, j) {
                editor_from(Some(saved[u]))
            } else {
                editor_from(Some(placeholder_entry(Some(ms[j].name))))
            }
        }),
{
    let st = start_pass(tabs, saved);
    lemma_pass_tabs(st, ms);
    lemma_rebuilt_stable(st, ms, j);
    lemma_turn_sees_input(tabs, saved, ms, j);
    lemma_donor_state(tabs, saved, ms, j);
}

/// Once some monitor has taken the unassigned entry, the entry is not put
/// back among the saved entries: they are what the pass left unclaimed.
pub proof fn lemma_claimed_donor_not_saved(
    tabs: Seq<TabModel>,
    saved: Seq<EntryModel>,
    ms: Seq<MonitorModel>,
    j: int,
)
    requires
        distinct_monitor_names(ms),
        0 <= j < ms.len(),
        unmatched(tabs, saved, ms[j]),
    ensures
        run_pass(start_pass(tabs, saved), ms).donor is None,
        reconciled_saved(tabs, saved, ms) == run_pass(start_pass(tabs, saved), ms).remaining,
{
    lemma_donor_state(tabs, saved, ms, ms.len() as int);
    assert(ms.subrange(0, ms.len() as int) =~= ms);
    assert(unmatched_before(tabs, saved, ms, ms.len() as int));
}

/// Over a whole pass: a monitor whose first previous tab has unsaved edits
/// keeps that tab's editor, dirty flag included, even with a saved entry of
/// its name on disk; a tab without unsaved edits is refreshed from the first
/// saved entry of its name.  (Monitor names are assumed distinct.)
pub proof fn lemma_dirty_tab_kept_in_pass(
    tabs: Seq<TabModel>,
    saved: Seq<EntryModel>,
    ms: Seq<MonitorModel>,
    j: int,
)
    requires
        distinct_monitor_names(ms),
        0 <= j < ms.len(),
        first_match(tabs, tab_named(ms[j].name)) >= 0,
    ensures
        ({
            let prev = tabs[first_match(tabs, tab_named(ms[j].name))];
            let e = first_match(saved, entry_named(ms[j].name));
            let tab = reconciled_tabs(tabs, saved, ms)[j];
            &&& tab.monitor == ms[j]
            &&& tab.editor == if e >= 0 && !prev.editor.dirty {
                editor_from(Some(saved[e]))
            } else {
                prev.editor
            }
        }),
{
    let st = start_pass(tabs, saved);
    lemma_pass_tabs(st, ms);
    lemma_rebuilt_stable(st, ms, j);
    lemma_turn_sees_input(tabs, saved, ms, j);
}

} // verus!
