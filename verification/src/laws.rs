//! The engine's cross-function laws, stated and proved over the same
//! spec functions the executable contracts use.

use vstd::prelude::*;

use vstd::arithmetic::div_mod::lemma_basic_div;
use vstd::arithmetic::div_mod::lemma_div_is_ordered;
use vstd::arithmetic::div_mod::lemma_fundamental_div_mod;
use vstd::arithmetic::div_mod::lemma_fundamental_div_mod_converse_div;
use vstd::arithmetic::div_mod::lemma_fundamental_div_mod_converse_mod;
use vstd::arithmetic::div_mod::lemma_mod_add_multiples_vanish;
use vstd::arithmetic::div_mod::lemma_add_mod_noop;
use vstd::arithmetic::div_mod::lemma_mod_bound;
use vstd::arithmetic::div_mod::lemma_mod_equivalence;
use vstd::arithmetic::div_mod::lemma_mod_multiples_vanish;
use vstd::arithmetic::div_mod::lemma_small_mod;

use crate::handle::QatHandle;
use crate::section::lemma_user_sum_all_zero;
use crate::section::lemma_user_sum_update;
use crate::section::rr_choice;
use crate::section::rr_scan;
use crate::section::user_sum;

verus! {

// ------------------------------------------------------------------
// The binding ledger: what any sequence of bind and unbind steps does
// to the user counts of a section's handles.
// ------------------------------------------------------------------

/// One step of the binding ledger: a connection binds to the handle at
/// `idx`, or a bound connection at `idx` unbinds.
pub enum BindEvent {
    /// A new connection registers as a user of handle `idx`.
    Bind {
        /// Index of the chosen handle.
        idx: int,
    },
    /// A bound connection releases handle `idx`.
    Unbind {
        /// Index of the bound handle.
        idx: int,
    },
}

/// Whether one step is legal on the given handles: the index in range,
/// an unbind only where a user is registered, a bind only below the
/// counter's capacity.
pub open spec fn event_ok(h: Seq<QatHandle>, e: BindEvent) -> bool {
    match e {
        BindEvent::Bind { idx } => 0 <= idx < h.len() && h[idx].users < u32::MAX,
        BindEvent::Unbind { idx } => 0 <= idx < h.len() && h[idx].users > 0,
    }
}

/// What one step does: exactly the handle update `bind` and `unbind`
/// promise in their contracts.
pub open spec fn apply_event(h: Seq<QatHandle>, e: BindEvent) -> Seq<QatHandle> {
    match e {
        BindEvent::Bind { idx } => h.update(
            idx,
            QatHandle { users: (h[idx].users + 1) as u32, ..h[idx] },
        ),
        BindEvent::Unbind { idx } => h.update(
            idx,
            QatHandle { users: (h[idx].users - 1) as u32, ..h[idx] },
        ),
    }
}

/// The handles after a sequence of steps, applied left to right.
pub open spec fn apply_events(h: Seq<QatHandle>, es: Seq<BindEvent>) -> Seq<QatHandle>
    decreases es.len(),
{
    if es.len() == 0 {
        h
    } else {
        apply_event(apply_events(h, es.drop_last()), es.last())
    }
}

/// Every step of the sequence is legal in the state it meets.
pub open spec fn events_ok(h: Seq<QatHandle>, es: Seq<BindEvent>) -> bool
    decreases es.len(),
{
    es.len() == 0 || (events_ok(h, es.drop_last()) && event_ok(
        apply_events(h, es.drop_last()),
        es.last(),
    ))
}

/// How many steps of the sequence bind.
pub open spec fn n_binds(es: Seq<BindEvent>) -> nat
    decreases es.len(),
{
    if es.len() == 0 {
        0
    } else {
        (n_binds(es.drop_last()) + (if es.last() is Bind {
            1int
        } else {
            0int
        })) as nat
    }
}

/// How many steps of the sequence unbind.
pub open spec fn n_unbinds(es: Seq<BindEvent>) -> nat
    decreases es.len(),
{
    if es.len() == 0 {
        0
    } else {
        (n_unbinds(es.drop_last()) + (if es.last() is Unbind {
            1int
        } else {
            0int
        })) as nat
    }
}

/// The binding balance: over every legal sequence of bind and unbind
/// steps from handles with no user, the sum of user counts equals the
/// number of binds minus the number of unbinds — the connections
/// currently bound — and, being a sum of naturals that each unbind
/// finds positive, never goes negative. Applied to any prefix of a
/// sequence, the same equation gives the running balance at that
/// point.
pub proof fn lemma_binding_balance(h: Seq<QatHandle>, es: Seq<BindEvent>)
    requires
        forall|j: int| 0 <= j < h.len() ==> (#[trigger] h[j]).users == 0,
        events_ok(h, es),
    ensures
        apply_events(h, es).len() == h.len(),
        user_sum(apply_events(h, es)) + n_unbinds(es) == n_binds(es),
    decreases es.len(),
{
    if es.len() == 0 {
        lemma_user_sum_all_zero(h);
    } else {
        lemma_binding_balance(h, es.drop_last());
        let h1 = apply_events(h, es.drop_last());
        match es.last() {
            BindEvent::Bind { idx } => {
                lemma_user_sum_update(
                    h1,
                    idx,
                    QatHandle { users: (h1[idx].users + 1) as u32, ..h1[idx] },
                );
            },
            BindEvent::Unbind { idx } => {
                lemma_user_sum_update(
                    h1,
                    idx,
                    QatHandle { users: (h1[idx].users - 1) as u32, ..h1[idx] },
                );
            },
        }
    }
}

// ------------------------------------------------------------------
// Draining: no new selection, untouched bindings.
// ------------------------------------------------------------------

proof fn lemma_rr_scan_all_done(h: Seq<QatHandle>, cursor: int, k: int)
    requires
        forall|j: int| 0 <= j < h.len() ==> (#[trigger] h[j]).done,
    ensures
        rr_scan(h, cursor, k) is None,
    decreases h.len() + 1 - k,
{
    if 1 <= k <= h.len() {
        lemma_mod_bound(cursor + k, h.len() as int);
        lemma_rr_scan_all_done(h, cursor, k + 1);
    }
}

/// Draining stops new selections: once every handle drains, the
/// round-robin choice is nothing from any cursor, so `select_handle`
/// and `bind` answer `NoHardwareAvailable`.
pub proof fn lemma_draining_blocks_selection(h: Seq<QatHandle>, cursor: int)
    requires
        forall|j: int| 0 <= j < h.len() ==> (#[trigger] h[j]).done,
    ensures
        rr_choice(h, cursor) is None,
{
    lemma_rr_scan_all_done(h, cursor, 1);
}

/// Draining leaves every binding untouched: the user counts — and with
/// them the validity of every bound connection — survive the drain.
/// The `complete` call of a bound connection reads only the
/// connection's own completion slot, so a drained handle resolves its
/// outstanding operations exactly as an active one would; only new
/// submissions are refused, which the sign and decrypt contracts
/// state.
pub proof fn lemma_drain_keeps_bindings(before: Seq<QatHandle>, after: Seq<QatHandle>)
    requires
        after.len() == before.len(),
        forall|j: int| 0 <= j < before.len() ==> after[j] == (QatHandle {
            done: true,
            ..before[j]
        }),
    ensures
        forall|j: int| 0 <= j < before.len() ==> after[j].users == (#[trigger] before[j]).users,
        user_sum(after) == user_sum(before),
{
    lemma_user_sum_pointwise(before, after);
}

/// The user sum reads nothing but the user counts.
proof fn lemma_user_sum_pointwise(a: Seq<QatHandle>, b: Seq<QatHandle>)
    requires
        a.len() == b.len(),
        forall|j: int| 0 <= j < a.len() ==> (#[trigger] a[j]).users == b[j].users,
    ensures
        user_sum(a) == user_sum(b),
    decreases a.len(),
{
    if a.len() > 0 {
        lemma_user_sum_pointwise(a.drop_last(), b.drop_last());
    }
}

// ------------------------------------------------------------------
// Round-robin balance: over m selections with nothing draining, every
// handle is chosen between floor(m/n) and ceil(m/n) times.
// ------------------------------------------------------------------

/// The handle the k-th selection of an uninterrupted run picks, when
/// no handle drains: selection advances the cursor one position per
/// call, modulo the instance count n, starting from cursor c0.
pub open spec fn rr_pick(c0: int, k: int, n: int) -> int {
    (c0 + k) % n
}

/// How many of the first m selections of such a run pick handle i.
pub open spec fn rr_count(c0: int, m: nat, n: int, i: int) -> nat
    decreases m,
{
    if m == 0 {
        0
    } else {
        (rr_count(c0, (m - 1) as nat, n, i) + (if rr_pick(c0, m as int, n) == i {
            1int
        } else {
            0int
        })) as nat
    }
}

/// The first selection of the run that picks handle i: between 1 and
/// n steps after the start.
pub open spec fn first_hit(c0: int, n: int, i: int) -> int {
    ((i - c0 - 1) % n) + 1
}

proof fn lemma_first_hit_range(c0: int, n: int, i: int)
    requires
        n >= 1,
    ensures
        1 <= first_hit(c0, n, i) <= n,
{
    lemma_mod_bound(i - c0 - 1, n);
}

/// Selection m of the run picks handle i exactly when m lands on i's
/// residue: n divides m minus the first hit.
proof fn lemma_hit_iff(c0: int, m: int, n: int, i: int)
    requires
        n >= 1,
        0 <= i < n,
    ensures
        rr_pick(c0, m, n) == i <==> (m - first_hit(c0, n, i)) % n == 0,
{
    let d = first_hit(c0, n, i);
    let q = (i - c0 - 1) / n;
    lemma_fundamental_div_mod(i - c0 - 1, n);
    assert(c0 + m - i == (m - d) + n * (-q)) by (nonlinear_arith)
        requires
            i - c0 - 1 == n * q + (d - 1),
    ;
    lemma_mod_multiples_vanish(-q, m - d, n);
    assert((c0 + m - i) % n == (m - d) % n);
    lemma_mod_equivalence(c0 + m, i, n);
    lemma_small_mod(i as nat, n as nat);
}

/// Closed form of the selection count: handle i is picked once at its
/// first hit and once per full cycle after it.
proof fn lemma_rr_count_closed(c0: int, m: nat, n: int, i: int)
    requires
        n >= 1,
        0 <= i < n,
    ensures
        rr_count(c0, m, n, i) == (m + n - first_hit(c0, n, i)) / n,
    decreases m,
{
    let d = first_hit(c0, n, i);
    lemma_first_hit_range(c0, n, i);
    if m == 0 {
        lemma_basic_div(n - d, n);
    } else {
        lemma_rr_count_closed(c0, (m - 1) as nat, n, i);
        lemma_hit_iff(c0, m as int, n, i);
        let y = m + n - d;
        lemma_mod_add_multiples_vanish(m - d, n);
        assert(y % n == (m - d) % n);
        lemma_fundamental_div_mod(y, n);
        if rr_pick(c0, m as int, n) == i {
            // A hit: m is at least the first hit, y is a positive
            // multiple of n, and the count steps up with y / n.
            if m < d {
                assert(m - d == (-1) * n + y) by (nonlinear_arith)
                    requires
                        y == m + n - d,
                ;
                lemma_fundamental_div_mod_converse_mod(m - d, n, -1, y);
                assert(false);
            }
            assert(y - 1 == (y / n - 1) * n + (n - 1)) by (nonlinear_arith)
                requires
                    y == n * (y / n) + y % n,
                    y % n == 0,
            ;
            lemma_fundamental_div_mod_converse_div(y - 1, n, y / n - 1, n - 1);
        } else {
            let r = y % n;
            lemma_mod_bound(y, n);
            assert(y - 1 == (y / n) * n + (r - 1)) by (nonlinear_arith)
                requires
                    y == n * (y / n) + r,
            ;
            lemma_fundamental_div_mod_converse_div(y - 1, n, y / n, r - 1);
        }
    }
}

/// Round-robin balance: over any m selections of an uninterrupted run
/// with no handle draining, each of the n handles is picked at least
/// floor(m/n) and at most ceil(m/n) times — for m at least n, every
/// handle is picked, and no handle is picked more than one cycle's
/// worth above another.
pub proof fn lemma_round_robin_balance(c0: int, m: nat, n: int, i: int)
    requires
        n >= 1,
        0 <= i < n,
    ensures
        (m as int) / n <= rr_count(c0, m, n, i),
        rr_count(c0, m, n, i) <= ((m as int) + n - 1) / n,
{
    lemma_rr_count_closed(c0, m, n, i);
    lemma_first_hit_range(c0, n, i);
    let d = first_hit(c0, n, i);
    lemma_div_is_ordered(m as int, m + n - d, n);
    lemma_div_is_ordered(m + n - d, m + n - 1, n);
}

/// With no handle draining, selection from any cursor picks the very
/// next handle in cyclic order: the choice `select_handle` makes at
/// cursor c is handle (c + 1) mod n.
pub proof fn lemma_select_no_drain(h: Seq<QatHandle>, cursor: int)
    requires
        h.len() > 0,
        forall|j: int| 0 <= j < h.len() ==> !(#[trigger] h[j]).done,
    ensures
        rr_choice(h, cursor) == Some((cursor + 1) % (h.len() as int)),
{
    let n = h.len() as int;
    lemma_mod_bound(cursor + 1, n);
    assert(!h[(cursor + 1) % n].done);
}

/// The trajectory of an uninterrupted run: with no handle draining,
/// the selection after k steps from cursor c0 sits at rr_pick(c0, k)
/// and chooses rr_pick(c0, k + 1) — so the run's k-th choice is
/// (c0 + k) mod n, which `rr_count` counts.
pub proof fn lemma_selection_trajectory(h: Seq<QatHandle>, c0: int, k: nat)
    requires
        h.len() > 0,
        forall|j: int| 0 <= j < h.len() ==> !(#[trigger] h[j]).done,
    ensures
        rr_choice(h, rr_pick(c0, k as int, h.len() as int)) == Some(
            rr_pick(c0, k as int + 1, h.len() as int),
        ),
{
    let n = h.len() as int;
    let c = rr_pick(c0, k as int, n);
    lemma_mod_bound(c0 + k, n);
    lemma_select_no_drain(h, c);
    lemma_add_mod_noop(c0 + k, 1, n);
    if n == 1 {
        lemma_mod_bound(c + 1, n);
        lemma_mod_bound(c0 + k + 1, n);
    } else {
        lemma_small_mod(1nat, n as nat);
    }
}

} // verus!
