//! Health statuses, the aggregation of individual checks into an overall
//! result, and the state of a health-check manager.

use vstd::prelude::*;
use vstd::string::*;
use crate::text::{decimal, lemma_decimal_digits, lemma_parse_decimal_round_trip, parse_unsigned_spec, write_decimal};

verus! {

/// Health status.
#[derive(Debug, Clone, Copy, PartialEq, Eq, Structural)]
pub enum HealthStatus {
    /// Service is healthy.
    Healthy,
    /// Service is degraded but operational.
    Degraded,
    /// Service is unhealthy.
    Unhealthy,
}

impl HealthStatus {
    /// The status lets the service accept traffic.
    pub open spec fn spec_is_ready(self) -> bool {
        self is Healthy || self is Degraded
    }

    /// The status is fully healthy.
    pub open spec fn spec_is_healthy(self) -> bool {
        self is Healthy
    }

    /// How bad the status is: healthy, then degraded, then unhealthy.
    pub open spec fn severity(self) -> nat {
        match self {
            HealthStatus::Healthy => 0,
            HealthStatus::Degraded => 1,
            HealthStatus::Unhealthy => 2,
        }
    }

    /// Check if the service is healthy or degraded (can accept traffic).
    pub fn is_ready(&self) -> (r: bool)
        ensures
            r == self.spec_is_ready(),
    {
        match self {
            HealthStatus::Healthy | HealthStatus::Degraded => true,
            HealthStatus::Unhealthy => false,
        }
    }

    /// Check if the service is fully healthy.
    pub fn is_healthy(&self) -> (r: bool)
        ensures
            r == self.spec_is_healthy(),
    {
        match self {
            HealthStatus::Healthy => true,
            _ => false,
        }
    }
}

/// A fully healthy status is always ready.
pub proof fn lemma_healthy_is_ready(s: HealthStatus)
    ensures
        s.spec_is_healthy() ==> s.spec_is_ready(),
        s.spec_is_ready() <==> s.severity() < 2,
        s.spec_is_healthy() <==> s.severity() == 0,
{
}

/// Individual check result.
#[derive(Debug, Clone)]
pub struct CheckResult {
    /// Check name.
    pub name: String,
    /// Check status.
    pub status: HealthStatus,
    /// Optional message.
    pub message: Option<String>,
    /// Check duration in milliseconds.
    pub duration_ms: Option<u64>,
}

/// The contents of a [`CheckResult`], with its strings as character sequences.
pub struct CheckResultView {
    pub name: Seq<char>,
    pub status: HealthStatus,
    pub message: Option<Seq<char>>,
    pub duration_ms: Option<u64>,
}

/// The character sequence of an optional string.
pub open spec fn opt_view(s: Option<String>) -> Option<Seq<char>> {
    match s {
        Some(t) => Some(t@),
        None => None,
    }
}

impl View for CheckResult {
    type V = CheckResultView;

    open spec fn view(&self) -> CheckResultView {
        CheckResultView {
            name: self.name@,
            status: self.status,
            message: opt_view(self.message),
            duration_ms: self.duration_ms,
        }
    }
}

/// Health check result.
#[derive(Debug, Clone)]
pub struct HealthCheckResult {
    /// Overall status.
    pub status: HealthStatus,
    /// Service name.
    pub service: Option<String>,
    /// Revision name.
    pub revision: Option<String>,
    /// Uptime in seconds.
    pub uptime_seconds: u64,
    /// Individual check results.
    pub checks: Vec<CheckResult>,
}

/// The overall status of a set of checks: unhealthy if any check is
/// unhealthy, otherwise degraded if any is degraded, otherwise healthy (also
/// when there are no checks at all).
pub open spec fn overall_status_of(checks: Seq<CheckResult>) -> HealthStatus {
    if exists|i: int| 0 <= i < checks.len() && (#[trigger] checks[i]).status is Unhealthy {
        HealthStatus::Unhealthy
    } else if exists|i: int| 0 <= i < checks.len() && (#[trigger] checks[i]).status is Degraded {
        HealthStatus::Degraded
    } else {
        HealthStatus::Healthy
    }
}

/// Computes the overall status of a set of check results.
pub fn overall_status(checks: &Vec<CheckResult>) -> (r: HealthStatus)
    ensures
        r == overall_status_of(checks@),
{
    let mut overall = HealthStatus::Healthy;
    let mut i: usize = 0;
    while i < checks.len()
        invariant
            i <= checks@.len(),
            overall == overall_status_of(checks@.subrange(0, i as int)),
        decreases checks@.len() - i,
    {
        let ghost prefix = checks@.subrange(0, i as int);
        let ghost next = checks@.subrange(0, i + 1);
        assert(forall|j: int| 0 <= j < prefix.len() ==> next[j] == #[trigger] prefix[j]);
        assert(next[i as int] == checks@[i as int]);
        match checks[i].status {
            HealthStatus::Unhealthy => {
                overall = HealthStatus::Unhealthy;
            },
            HealthStatus::Degraded => {
                if overall == HealthStatus::Healthy {
                    overall = HealthStatus::Degraded;
                }
            },
            HealthStatus::Healthy => {},
        }
        proof {
            if overall_status_of(prefix) is Unhealthy {
                let w = choose|j: int| 0 <= j < prefix.len() && (#[trigger] prefix[j]).status is Unhealthy;
                assert(next[w] == prefix[w]);
            }
            if overall_status_of(prefix) is Degraded {
                let w = choose|j: int| 0 <= j < prefix.len() && (#[trigger] prefix[j]).status is Degraded;
                assert(next[w] == prefix[w]);
            }
        }
        i = i + 1;
    }
    assert(checks@.subrange(0, checks@.len() as int) =~= checks@);
    overall
}

} // verus!

verus! {

/// The overall status is ready exactly when every individual check is ready.
pub proof fn lemma_overall_ready_iff_all_ready(checks: Seq<CheckResult>)
    ensures
        overall_status_of(checks).spec_is_ready() <==> forall|i: int|
            0 <= i < checks.len() ==> (#[trigger] checks[i]).status.spec_is_ready(),
{
}

/// The overall status is healthy exactly when every individual check is healthy.
pub proof fn lemma_overall_healthy_iff_all_healthy(checks: Seq<CheckResult>)
    ensures
        overall_status_of(checks).spec_is_healthy() <==> forall|i: int|
            0 <= i < checks.len() ==> (#[trigger] checks[i]).status.spec_is_healthy(),
{
    if !overall_status_of(checks).spec_is_healthy() {
        if overall_status_of(checks) is Unhealthy {
            let w = choose|j: int| 0 <= j < checks.len() && (#[trigger] checks[j]).status is Unhealthy;
            assert(!checks[w].status.spec_is_healthy());
        } else {
            let w = choose|j: int| 0 <= j < checks.len() && (#[trigger] checks[j]).status is Degraded;
            assert(!checks[w].status.spec_is_healthy());
        }
    }
}

/// The overall status is the worst individual status: no check is worse, and
/// some check is as bad (with no checks at all it is healthy).
pub proof fn lemma_overall_is_worst(checks: Seq<CheckResult>)
    ensures
        forall|i: int|
            0 <= i < checks.len() ==> (#[trigger] checks[i]).status.severity()
                <= overall_status_of(checks).severity(),
        checks.len() == 0 ==> overall_status_of(checks) == HealthStatus::Healthy,
        checks.len() > 0 ==> exists|i: int|
            0 <= i < checks.len() && (#[trigger] checks[i]).status.severity()
                == overall_status_of(checks).severity(),
{
    assert forall|i: int| 0 <= i < checks.len() implies (#[trigger] checks[i]).status.severity()
        <= overall_status_of(checks).severity() by {
        if checks[i].status is Unhealthy {
        } else if checks[i].status is Degraded {
        }
    }
    if checks.len() > 0 {
        if overall_status_of(checks) is Healthy {
            assert(checks[0].status.severity() == 0);
        }
    }
}

/// The overall status depends only on which statuses occur among the
/// checks: two lists in which the same statuses occur have the same overall
/// status. Any reordering of a list (checks finish in any order) is such a
/// pair, and so are lists that differ only in repeated statuses.
pub proof fn lemma_overall_depends_only_on_statuses(a: Seq<CheckResult>, b: Seq<CheckResult>)
    requires
        forall|i: int|
            0 <= i < a.len() ==> exists|j: int|
                0 <= j < b.len() && b[j].status == (#[trigger] a[i]).status,
        forall|j: int|
            0 <= j < b.len() ==> exists|i: int|
                0 <= i < a.len() && a[i].status == (#[trigger] b[j]).status,
    ensures
        overall_status_of(a) == overall_status_of(b),
{
    if overall_status_of(a) is Unhealthy {
        let w = choose|j: int| 0 <= j < a.len() && (#[trigger] a[j]).status is Unhealthy;
        let k = choose|j: int| 0 <= j < b.len() && b[j].status == a[w].status;
        assert(b[k].status is Unhealthy);
    }
    if overall_status_of(b) is Unhealthy {
        let w = choose|j: int| 0 <= j < b.len() && (#[trigger] b[j]).status is Unhealthy;
        let k = choose|j: int| 0 <= j < a.len() && a[j].status == b[w].status;
        assert(a[k].status is Unhealthy);
    }
    if overall_status_of(a) is Degraded {
        let w = choose|j: int| 0 <= j < a.len() && (#[trigger] a[j]).status is Degraded;
        let k = choose|j: int| 0 <= j < b.len() && b[j].status == a[w].status;
        assert(b[k].status is Degraded);
    }
    if overall_status_of(b) is Degraded {
        let w = choose|j: int| 0 <= j < b.len() && (#[trigger] b[j]).status is Degraded;
        let k = choose|j: int| 0 <= j < a.len() && a[j].status == b[w].status;
        assert(a[k].status is Degraded);
    }
}

/// Reordering the checks by a permutation (`perm` maps each position of the
/// reordered list to a distinct position of `a`) keeps the overall status.
pub proof fn lemma_overall_permutation(a: Seq<CheckResult>, perm: Seq<int>)
    requires
        perm.len() == a.len(),
        forall|k: int| 0 <= k < perm.len() ==> 0 <= #[trigger] perm[k] < a.len(),
        forall|k: int, l: int| 0 <= k < l < perm.len() ==> perm[k] != perm[l],
    ensures
        overall_status_of(Seq::new(a.len(), |k: int| a[perm[k]])) == overall_status_of(a),
{
    let b = Seq::new(a.len(), |k: int| a[perm[k]]);
    lemma_injective_onto(perm, a.len() as int);
    assert forall|i: int| 0 <= i < a.len() implies exists|j: int|
        0 <= j < b.len() && b[j].status == (#[trigger] a[i]).status by {
        assert(holds_value(perm, i));
        let k = choose|k: int| 0 <= k < perm.len() && perm[k] == i;
        assert(b[k] == a[i]);
    }
    assert forall|j: int| 0 <= j < b.len() implies exists|i: int|
        0 <= i < a.len() && a[i].status == (#[trigger] b[j]).status by {
        assert(b[j] == a[perm[j]]);
    }
    lemma_overall_depends_only_on_statuses(a, b);
}

/// Some position of `perm` holds `i`.
spec fn holds_value(perm: Seq<int>, i: int) -> bool {
    exists|k: int| 0 <= k < perm.len() && #[trigger] perm[k] == i
}

/// An injective map of `0..n` into `0..n` reaches every value.
proof fn lemma_injective_onto(perm: Seq<int>, n: int)
    requires
        perm.len() == n,
        forall|k: int| 0 <= k < perm.len() ==> 0 <= #[trigger] perm[k] < n,
        forall|k: int, l: int| 0 <= k < l < perm.len() ==> perm[k] != perm[l],
    ensures
        forall|i: int| 0 <= i < n ==> #[trigger] holds_value(perm, i),
    decreases n,
{
    if n > 0 {
        // Drop the position that holds n - 1 (if any) and the value n - 1.
        if exists|k: int| 0 <= k < perm.len() && perm[k] == n - 1 {
            let m = choose|k: int| 0 <= k < perm.len() && perm[k] == n - 1;
            let rest = perm.remove(m);
            assert forall|k: int| 0 <= k < rest.len() implies 0 <= #[trigger] rest[k] < n - 1 by {
                if k < m {
                    assert(rest[k] == perm[k]);
                } else {
                    assert(rest[k] == perm[k + 1]);
                }
            }
            assert forall|k: int, l: int| 0 <= k < l < rest.len() implies rest[k] != rest[l] by {
                let k2 = if k < m { k } else { k + 1 };
                let l2 = if l < m { l } else { l + 1 };
                assert(rest[k] == perm[k2]);
                assert(rest[l] == perm[l2]);
            }
            lemma_injective_onto(rest, n - 1);
            assert forall|i: int| 0 <= i < n implies #[trigger] holds_value(perm, i) by {
                if i < n - 1 {
                    assert(holds_value(rest, i));
                    let k = choose|k: int| 0 <= k < rest.len() && #[trigger] rest[k] == i;
                    if k < m {
                        assert(perm[k] == i);
                    } else {
                        assert(perm[k + 1] == i);
                    }
                }
            }
        } else {
            // No position holds n - 1: the n positions fit into 0..n-1, which
            // the shorter prefix already contradicts.
            let rest = perm.drop_last();
            assert forall|k: int| 0 <= k < rest.len() implies 0 <= #[trigger] rest[k] < n - 1 by {
                assert(rest[k] == perm[k]);
            }
            assert forall|k: int, l: int| 0 <= k < l < rest.len() implies rest[k] != rest[l] by {
                assert(rest[k] == perm[k]);
                assert(rest[l] == perm[l]);
            }
            lemma_injective_onto(rest, n - 1);
            let v = perm[n - 1];
            assert(v < n - 1);
            assert(holds_value(rest, v));
            let k = choose|k: int| 0 <= k < rest.len() && #[trigger] rest[k] == v;
            assert(perm[k] == v);
            assert(false);
        }
    }
}

} // verus!

verus! {

/// The per-checker deadline, as whole seconds and the nanoseconds beyond them.
#[derive(Debug, Clone, Copy, PartialEq, Eq, Structural)]
pub struct CheckTimeout {
    /// Whole seconds.
    pub secs: u64,
    /// Nanoseconds beyond the whole seconds.
    pub subsec_nanos: u32,
}

impl CheckTimeout {
    /// The deadline in whole milliseconds.
    pub open spec fn millis(self) -> nat {
        self.secs as nat * 1000 + (self.subsec_nanos / 1_000_000) as nat
    }

    /// A deadline of whole seconds.
    pub fn from_secs(secs: u64) -> (r: CheckTimeout)
        ensures
            r.secs == secs,
            r.subsec_nanos == 0,
    {
        CheckTimeout { secs, subsec_nanos: 0 }
    }

    /// The deadline in whole milliseconds.
    pub fn as_millis(&self) -> (r: u128)
        ensures
            r == self.millis(),
    {
        self.secs as u128 * 1000 + (self.subsec_nanos / 1_000_000) as u128
    }
}

/// Default per-checker deadline: five seconds.
pub open spec fn default_check_timeout() -> CheckTimeout {
    CheckTimeout { secs: 5, subsec_nanos: 0 }
}

impl Default for CheckTimeout {
    /// Five seconds.
    fn default() -> (r: Self)
        ensures
            r == default_check_timeout(),
    {
        CheckTimeout::from_secs(5)
    }
}

/// A deadline in milliseconds is its whole duration in nanoseconds divided
/// by a million, rounded down; the default deadline is 5000 ms.
pub proof fn lemma_check_timeout_millis(t: CheckTimeout)
    ensures
        t.millis() == (t.secs as nat * 1_000_000_000 + t.subsec_nanos as nat) / 1_000_000,
        default_check_timeout().millis() == 5000,
{
    let s = t.secs as int;
    let q = t.subsec_nanos as int;
    assert((s * 1_000_000_000 + q) / 1_000_000 == s * 1000 + q / 1_000_000) by (nonlinear_arith)
        requires
            s >= 0,
            q >= 0,
    ;
}

/// Message of a check that did not answer within `ms` milliseconds.
pub open spec fn timeout_message(ms: nat) -> Seq<char> {
    "check did not complete within "@ + decimal(ms) + "ms"@
}

/// Message of a check whose task failed without a result.
pub open spec fn panicked_message() -> Seq<char> {
    "check panicked"@
}

/// The timeout message names the deadline: after its fixed opening come only
/// ASCII digits, which read back as the milliseconds, and then `ms`.
pub proof fn lemma_timeout_message_names_deadline(ms: nat)
    ensures
        ({
            let m = timeout_message(ms);
            let open = "check did not complete within "@;
            let digits = m.subrange(open.len() as int, m.len() - 2);
            &&& m.subrange(0, open.len() as int) == open
            &&& m.subrange(m.len() - 2, m.len() as int) == seq!['m', 's']
            &&& forall|i: int| 0 <= i < digits.len() ==> 48 <= (#[trigger] digits[i]) as u32 <= 57
            &&& parse_unsigned_spec(digits, ms) == Some(ms)
        }),
{
    let m = timeout_message(ms);
    let open = "check did not complete within "@;
    reveal_strlit("ms");
    assert("ms"@ =~= seq!['m', 's']);
    assert(m.subrange(0, open.len() as int) =~= open);
    assert(m.subrange(m.len() - 2, m.len() as int) =~= seq!['m', 's']);
    assert(m.subrange(open.len() as int, m.len() - 2) =~= decimal(ms));
    lemma_decimal_digits(ms);
    lemma_parse_decimal_round_trip(ms, ms);
}

/// The result reported for a checker named `name` whose task failed.
pub open spec fn panicked_view(name: Seq<char>) -> CheckResultView {
    CheckResultView {
        name,
        status: HealthStatus::Unhealthy,
        message: Some(panicked_message()),
        duration_ms: None,
    }
}

/// The result of a checker task: the checker's own result, or, where it did
/// not answer within `timeout`, an unhealthy result under `name`; either way
/// with the measured duration.
pub fn task_result(
    outcome: Option<CheckResult>,
    name: String,
    timeout: &CheckTimeout,
    duration_ms: u64,
) -> (r: CheckResult)
    ensures
        match outcome {
            Some(c) => r == (CheckResult { duration_ms: Some(duration_ms), ..c }),
            None => r@ == (CheckResultView {
                name: name@,
                status: HealthStatus::Unhealthy,
                message: Some(timeout_message(timeout.millis())),
                duration_ms: Some(duration_ms),
            }),
        },
{
    match outcome {
        Some(c) => CheckResult { duration_ms: Some(duration_ms), ..c },
        None => {
            let mut message = String::from_str("check did not complete within ");
            write_decimal(timeout.as_millis(), &mut message);
            message.append("ms");
            CheckResult {
                name,
                status: HealthStatus::Unhealthy,
                message: Some(message),
                duration_ms: Some(duration_ms),
            }
        },
    }
}

/// The result reported for a checker named `name` whose task failed.
pub fn panicked_result(name: String) -> (r: CheckResult)
    ensures
        r@ == panicked_view(name@),
{
    CheckResult {
        name,
        status: HealthStatus::Unhealthy,
        message: Some(String::from_str("check panicked")),
        duration_ms: None,
    }
}

/// The last result that `completed` holds for the checker at index `i`.
pub open spec fn reported(completed: Seq<(usize, CheckResult)>, i: int) -> Option<CheckResult>
    decreases completed.len(),
{
    if completed.len() == 0 {
        None
    } else if completed.last().0 == i {
        Some(completed.last().1)
    } else {
        reported(completed.drop_last(), i)
    }
}

/// Of two runs of completions, the later one decides where it reports.
pub proof fn lemma_reported_concat(a: Seq<(usize, CheckResult)>, b: Seq<(usize, CheckResult)>, i: int)
    ensures
        reported(a + b, i) == (if reported(b, i) is Some {
            reported(b, i)
        } else {
            reported(a, i)
        }),
    decreases b.len(),
{
    if b.len() == 0 {
        assert(a + b =~= a);
    } else {
        assert((a + b).drop_last() =~= a + b.drop_last());
        lemma_reported_concat(a, b.drop_last(), i);
    }
}

/// With no completion for checker `i`, nothing is reported for it.
pub proof fn lemma_unreported_checker(completed: Seq<(usize, CheckResult)>, i: int)
    requires
        forall|k: int| 0 <= k < completed.len() ==> (#[trigger] completed[k]).0 != i,
    ensures
        reported(completed, i) is None,
    decreases completed.len(),
{
    if completed.len() > 0 {
        let t = completed.drop_last();
        assert forall|k: int| 0 <= k < t.len() implies (#[trigger] t[k]).0 != i by {
            assert(t[k] == completed[k]);
        }
        assert(completed.last() == completed[completed.len() - 1]);
        lemma_unreported_checker(t, i);
    }
}

/// The result reported for checker `i` is exactly the one its last
/// completion holds, unchanged: same name, status, message and duration,
/// whatever came before it or after it for other checkers.
pub proof fn lemma_reported_is_last_completion(
    before: Seq<(usize, CheckResult)>,
    i: usize,
    c: CheckResult,
    after: Seq<(usize, CheckResult)>,
)
    requires
        forall|k: int| 0 <= k < after.len() ==> (#[trigger] after[k]).0 != i,
    ensures
        reported(before + seq![(i, c)] + after, i as int) == Some(c),
        reported(before + seq![(i, c)] + after, i as int) matches Some(r) && r.status == c.status
            && r.name == c.name && r.message == c.message && r.duration_ms == c.duration_ms,
{
    let head = before + seq![(i, c)];
    lemma_unreported_checker(after, i as int);
    lemma_reported_concat(head, after, i as int);
    assert(head.last() == (i, c));
}

/// The results of all checkers, in registration order: for each checker the
/// result its task reported, or, where none came back, an unhealthy result
/// under its name.
pub fn collect_results(names: &Vec<String>, completed: Vec<(usize, CheckResult)>) -> (r: Vec<
    CheckResult,
>)
    ensures
        r@.len() == names@.len(),
        forall|i: int|
            0 <= i < names@.len() ==> match reported(completed@, i) {
                Some(c) => r@[i] == c,
                None => (#[trigger] r@[i])@ == panicked_view(names@[i]@),
            },
{
    let count = names.len();
    let mut slots: Vec<Option<CheckResult>> = Vec::new();
    while slots.len() < count
        invariant
            slots@.len() <= count,
            forall|j: int| 0 <= j < slots@.len() ==> (#[trigger] slots@[j]) is None,
        decreases count - slots@.len(),
    {
        slots.push(None);
    }
    let ghost orig = completed@;
    let mut rest = completed;
    assert(orig.subrange(orig.len() as int, orig.len() as int) =~= Seq::<(usize, CheckResult)>::empty());
    while rest.len() > 0
        invariant
            slots@.len() == count,
            rest@.len() <= orig.len(),
            rest@ =~= orig.subrange(0, rest@.len() as int),
            forall|j: int|
                0 <= j < count ==> #[trigger] slots@[j] == reported(
                    orig.subrange(rest@.len() as int, orig.len() as int),
                    j,
                ),
        decreases rest@.len(),
    {
        let ghost before = rest@;
        let ghost done = orig.subrange(rest@.len() as int, orig.len() as int);
        let entry = rest.pop();
        match entry {
            Some((idx, res)) => {
                let ghost x = (idx, res);
                assert(x == before.last());
                let ghost now = orig.subrange(rest@.len() as int, orig.len() as int);
                assert(now =~= seq![x] + done);
                let ghost old_slots = slots@;
                if idx < count && slots[idx].is_none() {
                    slots.set(idx, Some(res));
                }
                proof {
                    assert forall|j: int| 0 <= j < count implies #[trigger] slots@[j] == reported(
                        now,
                        j,
                    ) by {
                        lemma_reported_concat(seq![x], done, j);
                        let single = seq![x];
                        assert(single.drop_last() =~= Seq::<(usize, CheckResult)>::empty());
                        assert(single.last() == x);
                        assert(reported(single.drop_last(), j) is None);
                        assert(reported(single, j) == (if idx as int == j {
                            Some(res)
                        } else {
                            None::<CheckResult>
                        }));
                        assert(old_slots[j] == reported(done, j));
                    }
                }
            },
            None => {},
        }
    }
    assert(orig.subrange(0, orig.len() as int) =~= orig);
    let mut results: Vec<CheckResult> = Vec::new();
    let mut i: usize = 0;
    while i < count
        invariant
            count == names@.len(),
            slots@.len() == count,
            i <= count,
            results@.len() == i,
            forall|j: int| i <= j < count ==> #[trigger] slots@[j] == reported(orig, j),
            forall|j: int|
                0 <= j < i ==> match reported(orig, j) {
                    Some(c) => results@[j] == c,
                    None => (#[trigger] results@[j])@ == panicked_view(names@[j]@),
                },
        decreases count - i,
    {
        let mut taken: Option<CheckResult> = None;
        slots.set_and_swap(i, &mut taken);
        let res = match taken {
            Some(c) => c,
            None => panicked_result(names[i].clone()),
        };
        results.push(res);
        i = i + 1;
    }
    results
}

/// The result of running the registered checkers: every checker's result in
/// registration order, and the overall status they give.
pub fn summarize_checks(
    service: Option<String>,
    revision: Option<String>,
    uptime_seconds: u64,
    names: &Vec<String>,
    completed: Vec<(usize, CheckResult)>,
) -> (r: HealthCheckResult)
    ensures
        r.status == overall_status_of(r.checks@),
        r.service == service,
        r.revision == revision,
        r.uptime_seconds == uptime_seconds,
        r.checks@.len() == names@.len(),
        forall|i: int|
            0 <= i < names@.len() ==> match reported(completed@, i) {
                Some(c) => r.checks@[i] == c,
                None => (#[trigger] r.checks@[i])@ == panicked_view(names@[i]@),
            },
{
    let checks = collect_results(names, completed);
    let status = overall_status(&checks);
    HealthCheckResult { status, service, revision, uptime_seconds, checks }
}

} // verus!

verus! {

/// The state that all handles of a health-check manager share: the
/// registered checkers, in registration order, and an optional status
/// override.
pub struct HealthCheck<C> {
    checks: Vec<C>,
    status_override: Option<HealthStatus>,
}

/// The state of a [`HealthCheck`].
pub struct HealthCheckView<C> {
    pub checkers: Seq<C>,
    pub status_override: Option<HealthStatus>,
}

impl<C> HealthCheckView<C> {
    /// Liveness: the override decides where there is one; otherwise alive.
    pub open spec fn live(self) -> bool {
        match self.status_override {
            Some(s) => s.spec_is_ready(),
            None => true,
        }
    }

    /// The same state with the override replaced.
    pub open spec fn with_override(self, status_override: Option<HealthStatus>) -> Self {
        HealthCheckView { status_override, ..self }
    }

    /// The same state with one more checker registered last.
    pub open spec fn with_checker(self, checker: C) -> Self {
        HealthCheckView { checkers: self.checkers.push(checker), ..self }
    }

}

impl<C> View for HealthCheck<C> {
    type V = HealthCheckView<C>;

    closed spec fn view(&self) -> HealthCheckView<C> {
        HealthCheckView {
            checkers: self.checks@,
            status_override: self.status_override,
        }
    }
}

impl<C> HealthCheck<C> {
    /// Create a new health check manager: no checkers and no override.
    pub fn new() -> (r: Self)
        ensures
            r@.checkers == Seq::<C>::empty(),
            r@.status_override is None,
    {
        HealthCheck {
            checks: Vec::new(),
            status_override: None,
        }
    }

    /// Register a health checker; it is run after those registered before it.
    pub fn register(&mut self, checker: C)
        ensures
            final(self)@ == old(self)@.with_checker(checker),
    {
        self.checks.push(checker);
    }

    /// Override the health status (useful during shutdown).
    pub fn set_status(&mut self, status: HealthStatus)
        ensures
            final(self)@ == old(self)@.with_override(Some(status)),
    {
        self.status_override = Some(status);
    }

    /// Clear the status override.
    pub fn clear_status(&mut self)
        ensures
            final(self)@ == old(self)@.with_override(None),
    {
        self.status_override = None;
    }

    /// Mark as unhealthy (for graceful shutdown).
    pub fn mark_unhealthy(&mut self)
        ensures
            final(self)@ == old(self)@.with_override(Some(HealthStatus::Unhealthy)),
    {
        self.set_status(HealthStatus::Unhealthy);
    }

    /// Simple liveness check (always healthy unless overridden).
    pub fn liveness(&self) -> (r: bool)
        ensures
            r == self@.live(),
    {
        match self.status_override {
            Some(status) => status.is_ready(),
            None => true,
        }
    }

    /// The registered checkers, in registration order.
    pub fn checkers(&self) -> (r: &Vec<C>)
        ensures
            r@ == self@.checkers,
    {
        &self.checks
    }

    /// The current status override.
    pub fn status_override(&self) -> (r: Option<HealthStatus>)
        ensures
            r == self@.status_override,
    {
        self.status_override
    }

    /// The result of a check while the status is overridden: the override
    /// and no individual checks, without running any checker. `None` when
    /// there is no override, and the checkers must run.
    pub fn override_result(
        &self,
        service: Option<String>,
        revision: Option<String>,
        uptime_seconds: u64,
    ) -> (r: Option<HealthCheckResult>)
        ensures
            r is Some <==> self@.status_override is Some,
            r matches Some(res) ==> {
                &&& res.status == self@.status_override->0
                &&& res.checks@.len() == 0
                &&& res.service == service
                &&& res.revision == revision
                &&& res.uptime_seconds == uptime_seconds
            },
    {
        match self.status_override {
            Some(status) => Some(
                HealthCheckResult { status, service, revision, uptime_seconds, checks: Vec::new() },
            ),
            None => None,
        }
    }
}

impl<C> Default for HealthCheck<C> {
    fn default() -> (r: Self)
        ensures
            r@.checkers == Seq::<C>::empty(),
            r@.status_override is None,
    {
        Self::new()
    }
}

/// After the status is overridden, liveness follows the override: alive
/// exactly when the override is ready; marking unhealthy makes it not alive.
pub proof fn lemma_liveness_follows_override<C>(h: HealthCheckView<C>, s: HealthStatus)
    ensures
        h.with_override(Some(s)).live() == s.spec_is_ready(),
        !h.with_override(Some(HealthStatus::Unhealthy)).live(),
        h.with_override(Some(HealthStatus::Degraded)).live(),
{
}

/// Clearing the override undoes setting it, and without an override the
/// service is alive whatever its checkers report.
pub proof fn lemma_clear_undoes_set<C>(h: HealthCheckView<C>, s: HealthStatus)
    ensures
        h.with_override(Some(s)).with_override(None) == h.with_override(None),
        h.with_override(None).live(),
        h.status_override is None ==> h.with_override(Some(s)).with_override(None) == h,
{
}

/// Registering a checker changes neither the override nor liveness, and
/// changing the override keeps the registered checkers.
pub proof fn lemma_register_and_override_independent<C>(
    h: HealthCheckView<C>,
    c: C,
    o: Option<HealthStatus>,
)
    ensures
        h.with_checker(c).status_override == h.status_override,
        h.with_checker(c).live() == h.live(),
        h.with_override(o).checkers == h.checkers,
        h.with_checker(c).with_override(o) == h.with_override(o).with_checker(c),
{
}

/// Simple function-based health checker.
pub struct FnHealthChecker<F> {
    name: String,
    check_fn: F,
}

impl<F> FnHealthChecker<F> {
    /// The checker's name.
    pub closed spec fn spec_name(&self) -> Seq<char> {
        self.name@
    }

    /// The checker's function.
    pub closed spec fn spec_check_fn(&self) -> F {
        self.check_fn
    }

    /// Create a new function-based health checker.
    pub fn new(name: String, check_fn: F) -> (r: Self)
        ensures
            r.spec_name() == name@,
            r.spec_check_fn() == check_fn,
    {
        FnHealthChecker { name, check_fn }
    }

    /// The checker's name.
    pub fn name(&self) -> (r: &str)
        ensures
            r@ == self.spec_name(),
    {
        self.name.as_str()
    }

    /// The checker's function.
    pub fn check_fn(&self) -> (r: &F)
        ensures
            *r == self.spec_check_fn(),
    {
        &self.check_fn
    }

    /// The result of a run of the checker's function: healthy on `Ok`,
    /// unhealthy with the error as message on `Err`; under the checker's name.
    pub fn result_of(&self, outcome: Result<(), String>) -> (r: CheckResult)
        ensures
            r.name@ == self.spec_name(),
            r.duration_ms is None,
            match outcome {
                Ok(()) => r.status == HealthStatus::Healthy && r.message is None,
                Err(msg) => r.status == HealthStatus::Unhealthy && r.message == Some(msg),
            },
    {
        match outcome {
            Ok(()) => CheckResult {
                name: self.name.clone(),
                status: HealthStatus::Healthy,
                message: None,
                duration_ms: None,
            },
            Err(msg) => CheckResult {
                name: self.name.clone(),
                status: HealthStatus::Unhealthy,
                message: Some(msg),
                duration_ms: None,
            },
        }
    }
}

} // verus!
