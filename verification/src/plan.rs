use vstd::prelude::*;
use vstd::string::*;
use crate::text::{
    chars_of, concat_str, contains_ci, find_char, find_char_x, find_ci, find_ci_x, ident_end,
    ident_end_x, lemma_find_ci_props, lemma_ident_end_bounds, matches_ci_at, matches_ci_at_x,
    skip_ws, skip_ws_x, str_views, string_of_chars,
};

verus! {

// ---------------------------------------------------------------------------
// Query-plan analysis: each plan step is a free-form description string. A
// step classifies one table's access as SEARCH, SCAN or UNKNOWN, and may
// yield a human-readable insight. Across steps, SCAN is sticky: once a table
// is classified SCAN, later steps cannot downgrade it.
// ---------------------------------------------------------------------------

/// Access classification for a table referenced by a query plan step.
#[derive(Clone, Copy, Debug, PartialEq, Eq, Structural)]
pub enum AccessKind {
    Scan,
    Search,
    Unknown,
}

pub open spec fn kw_scan() -> Seq<char> {
    "SCAN "@
}

pub open spec fn kw_search() -> Seq<char> {
    "SEARCH "@
}

pub open spec fn kw_using_index() -> Seq<char> {
    "USING INDEX"@
}

pub open spec fn kw_table() -> Seq<char> {
    "TABLE "@
}

pub open spec fn idx_prefix() -> Seq<char> {
    "Index used: "@
}

pub open spec fn scan_prefix() -> Seq<char> {
    "Full scan: "@
}

pub open spec fn fallback_insight() -> Seq<char> {
    "Plan analyzed with no obvious full scans"@
}

/// The access kind one step reports: SEARCH beats SCAN within a single step,
/// and a step with neither keyword reports UNKNOWN.
pub open spec fn step_access(s: Seq<char>) -> AccessKind {
    if contains_ci(s, kw_search()) {
        AccessKind::Search
    } else if contains_ci(s, kw_scan()) {
        AccessKind::Scan
    } else {
        AccessKind::Unknown
    }
}

/// Where the table name begins: just after the first "SCAN " if present,
/// else just after the first "SEARCH ".
pub open spec fn name_start(s: Seq<char>) -> Option<int> {
    if contains_ci(s, kw_scan()) {
        Some(find_ci(s, kw_scan())->Some_0 + kw_scan().len())
    } else if contains_ci(s, kw_search()) {
        Some(find_ci(s, kw_search())->Some_0 + kw_search().len())
    } else {
        None
    }
}

/// The table identifier a step refers to: after the keyword, whitespace and
/// an optional "TABLE " are skipped, then either a quoted name (up to the
/// matching close quote, or the end of the step) or a bare identifier is
/// read. An empty name counts as no name.
pub open spec fn step_table(s: Seq<char>) -> Option<Seq<char>> {
    match name_start(s) {
        None => None,
        Some(p0) => {
            let p1 = skip_ws(s, p0);
            let p2 = if matches_ci_at(s, kw_table(), p1) {
                p1 + kw_table().len()
            } else {
                p1
            };
            if p2 < s.len() && (s[p2] == '"' || s[p2] == '\'') {
                let e = find_char(s, p2 + 1, s[p2]);
                if e > p2 + 1 {
                    Some(s.subrange(p2 + 1, e))
                } else {
                    None
                }
            } else {
                let e = ident_end(s, p2);
                if e > p2 {
                    Some(s.subrange(p2, e))
                } else {
                    None
                }
            }
        },
    }
}

/// The insights one step yields, in emission order.
pub open spec fn step_insights(s: Seq<char>) -> Seq<Seq<char>> {
    let a: Seq<Seq<char>> = if contains_ci(s, kw_using_index()) {
        seq![idx_prefix() + s]
    } else {
        Seq::empty()
    };
    let b: Seq<Seq<char>> = if contains_ci(s, kw_scan()) && !contains_ci(s, kw_search()) {
        seq![scan_prefix() + s]
    } else {
        Seq::empty()
    };
    a + b
}

pub open spec fn insights_cat(steps: Seq<Seq<char>>) -> Seq<Seq<char>>
    decreases steps.len(),
{
    if steps.len() == 0 {
        Seq::empty()
    } else {
        insights_cat(steps.drop_last()) + step_insights(steps.last())
    }
}

/// All insights for a plan: the per-step insights in step order, or the
/// fallback line when a non-empty plan yielded none.
pub open spec fn insights_spec(steps: Seq<Seq<char>>) -> Seq<Seq<char>> {
    let base = insights_cat(steps);
    if base.len() == 0 && steps.len() > 0 {
        seq![fallback_insight()]
    } else {
        base
    }
}

// ---------------------------------------------------------------------------
// The running per-table classification, as an association list in first-seen
// order. SCAN is sticky: an entry already classified SCAN is never replaced.
// ---------------------------------------------------------------------------

pub open spec fn acc_lookup(m: Seq<(Seq<char>, AccessKind)>, n: Seq<char>) -> Option<AccessKind>
    decreases m.len(),
{
    if m.len() == 0 {
        None
    } else if m[0].0 == n {
        Some(m[0].1)
    } else {
        acc_lookup(m.drop_first(), n)
    }
}

pub open spec fn acc_update(
    m: Seq<(Seq<char>, AccessKind)>,
    n: Seq<char>,
    a: AccessKind,
) -> Seq<(Seq<char>, AccessKind)>
    decreases m.len(),
{
    if m.len() == 0 {
        seq![(n, a)]
    } else if m[0].0 == n {
        if m[0].1 == AccessKind::Scan {
            m
        } else {
            seq![(n, a)] + m.drop_first()
        }
    } else {
        seq![m[0]] + acc_update(m.drop_first(), n, a)
    }
}

/// The classification that a whole plan assigns to its tables.
pub open spec fn table_access_spec(steps: Seq<Seq<char>>) -> Seq<(Seq<char>, AccessKind)>
    decreases steps.len(),
{
    if steps.len() == 0 {
        Seq::empty()
    } else {
        let m = table_access_spec(steps.drop_last());
        match step_table(steps.last()) {
            Some(n) => acc_update(m, n, step_access(steps.last())),
            None => m,
        }
    }
}

// ---------------------------------------------------------------------------
// SCAN stickiness.
// ---------------------------------------------------------------------------

proof fn lemma_update_scan_self(m: Seq<(Seq<char>, AccessKind)>, n: Seq<char>)
    ensures
        acc_lookup(acc_update(m, n, AccessKind::Scan), n) == Some(AccessKind::Scan),
    decreases m.len(),
{
    if m.len() == 0 {
    } else if m[0].0 == n {
    } else {
        lemma_update_scan_self(m.drop_first(), n);
        assert((seq![m[0]] + acc_update(m.drop_first(), n, AccessKind::Scan)).drop_first()
            =~= acc_update(m.drop_first(), n, AccessKind::Scan));
    }
}

proof fn lemma_update_keeps_scan(
    m: Seq<(Seq<char>, AccessKind)>,
    n: Seq<char>,
    a: AccessKind,
    t: Seq<char>,
)
    requires
        acc_lookup(m, t) == Some(AccessKind::Scan),
    ensures
        acc_lookup(acc_update(m, n, a), t) == Some(AccessKind::Scan),
    decreases m.len(),
{
    if m.len() == 0 {
    } else if m[0].0 == n {
        if m[0].1 == AccessKind::Scan {
        } else {
            let m2 = seq![(n, a)] + m.drop_first();
            assert(m2.drop_first() =~= m.drop_first());
            assert(m[0].0 != t);
        }
    } else {
        let m2 = seq![m[0]] + acc_update(m.drop_first(), n, a);
        assert(m2.drop_first() =~= acc_update(m.drop_first(), n, a));
        if m[0].0 == t {
        } else {
            lemma_update_keeps_scan(m.drop_first(), n, a, t);
        }
    }
}

/// Once some step classifies table `t` as SCAN, the whole plan's
/// classification of `t` is SCAN, whatever the other steps say of it.
pub proof fn law_scan_is_sticky(steps: Seq<Seq<char>>, i: int, t: Seq<char>)
    requires
        0 <= i < steps.len(),
        step_table(steps[i]) == Some(t),
        step_access(steps[i]) == AccessKind::Scan,
    ensures
        acc_lookup(table_access_spec(steps), t) == Some(AccessKind::Scan),
    decreases steps.len(),
{
    if i == steps.len() - 1 {
        assert(steps.last() == steps[i]);
        lemma_update_scan_self(table_access_spec(steps.drop_last()), t);
    } else {
        assert(steps.drop_last()[i] == steps[i]);
        law_scan_is_sticky(steps.drop_last(), i, t);
        match step_table(steps.last()) {
            Some(n) => {
                lemma_update_keeps_scan(
                    table_access_spec(steps.drop_last()),
                    n,
                    step_access(steps.last()),
                    t,
                );
            },
            None => {},
        }
    }
}

/// If one step reads table `t` with a full SCAN and another searches the same
/// `t`, in either order, the plan's final classification of `t` is SCAN.
pub proof fn law_scan_beats_search(steps: Seq<Seq<char>>, i: int, j: int, t: Seq<char>)
    requires
        0 <= i < steps.len(),
        0 <= j < steps.len(),
        step_table(steps[i]) == Some(t),
        step_access(steps[i]) == AccessKind::Scan,
        step_table(steps[j]) == Some(t),
        step_access(steps[j]) == AccessKind::Search,
    ensures
        acc_lookup(table_access_spec(steps), t) == Some(AccessKind::Scan),
{
    law_scan_is_sticky(steps, i, t);
}

// ---------------------------------------------------------------------------
// Per-table row counts and the scanned-row estimate.
// ---------------------------------------------------------------------------

/// One table referenced by the plan: its access kind and, when the engine
/// could count it, its total row count.
#[derive(Debug, PartialEq, Eq)]
pub struct PlanTableInfo {
    pub table: String,
    pub access: AccessKind,
    pub total_rows: Option<u64>,
}

pub open spec fn sat_add_u64(a: u64, b: u64) -> u64 {
    if a + b > u64::MAX {
        u64::MAX
    } else {
        (a + b) as u64
    }
}

/// The scanned-row estimate: the saturating sum of the known row counts of
/// exactly the tables classified SCAN.
pub open spec fn scan_sum(ts: Seq<PlanTableInfo>) -> u64
    decreases ts.len(),
{
    if ts.len() == 0 {
        0u64
    } else {
        let s = scan_sum(ts.drop_last());
        match ts.last().total_rows {
            Some(c) => if ts.last().access == AccessKind::Scan {
                sat_add_u64(s, c)
            } else {
                s
            },
            None => s,
        }
    }
}

/// When no table is classified SCAN, the scanned-row estimate is zero — a
/// present zero, not an absent value.
pub proof fn law_no_scan_zero_estimate(ts: Seq<PlanTableInfo>)
    requires
        forall|i: int| 0 <= i < ts.len() ==> ts[i].access != AccessKind::Scan,
    ensures
        scan_sum(ts) == 0,
    decreases ts.len(),
{
    if ts.len() > 0 {
        law_no_scan_zero_estimate(ts.drop_last());
    }
}

/// An entry not classified SCAN, or one whose count is unknown, contributes
/// nothing to the scanned-row estimate.
pub proof fn law_estimate_ignores_non_scans(ts: Seq<PlanTableInfo>, e: PlanTableInfo)
    requires
        e.access != AccessKind::Scan || e.total_rows is None,
    ensures
        scan_sum(ts.push(e)) == scan_sum(ts),
{
    assert(ts.push(e).drop_last() =~= ts);
}

/// A SCAN-classified entry with a known count adds exactly that count,
/// saturating instead of wrapping.
pub proof fn law_estimate_adds_scan(ts: Seq<PlanTableInfo>, e: PlanTableInfo, c: u64)
    requires
        e.access == AccessKind::Scan,
        e.total_rows == Some(c),
    ensures
        scan_sum(ts.push(e)) == sat_add_u64(scan_sum(ts), c),
{
    assert(ts.push(e).drop_last() =~= ts);
}

// ---------------------------------------------------------------------------
// Executable analysis.
// ---------------------------------------------------------------------------

pub open spec fn access_views(m: Seq<(String, AccessKind)>) -> Seq<(Seq<char>, AccessKind)> {
    Seq::new(m.len(), |i: int| (m[i].0@, m[i].1))
}

/// Classifies one step and extracts the table identifier it refers to.
pub fn analyze_step(step: &Vec<char>) -> (r: (AccessKind, Option<String>))
    ensures
        r.0 == step_access(step@),
        match r.1 {
            Some(n) => step_table(step@) == Some(n@),
            None => step_table(step@) is None,
        },
{
    let kscan = chars_of("SCAN ");
    let ksearch = chars_of("SEARCH ");
    let ktable = chars_of("TABLE ");
    let f_search = find_ci_x(step, &ksearch);
    let f_scan = find_ci_x(step, &kscan);
    let access = if f_search.is_some() {
        AccessKind::Search
    } else if f_scan.is_some() {
        AccessKind::Scan
    } else {
        AccessKind::Unknown
    };
    let p0: usize = match f_scan {
        Some(i) => {
            let slen = step.len();
            proof {
                lemma_find_ci_props(step@, kscan@);
                assert(i + kscan@.len() <= slen);
            }
            i + kscan.len()
        },
        None => {
            match f_search {
                Some(i) => {
                    let slen = step.len();
                    proof {
                        lemma_find_ci_props(step@, ksearch@);
                        assert(i + ksearch@.len() <= slen);
                    }
                    i + ksearch.len()
                },
                None => {
                    return (access, None);
                },
            }
        },
    };
    assert(name_start(step@) == Some(p0 as int));
    let p1 = skip_ws_x(step, p0);
    let p2: usize = if ktable.len() <= step.len() - p1 && matches_ci_at_x(step, &ktable, p1) {
        p1 + ktable.len()
    } else {
        proof {
            assert(!matches_ci_at(step@, kw_table(), p1 as int));
        }
        p1
    };
    proof {
        lemma_ident_end_bounds(step@, p2 as int);
    }
    if p2 < step.len() && (step[p2] == '"' || step[p2] == '\'') {
        let e = find_char_x(step, p2 + 1, step[p2]);
        if e > p2 + 1 {
            let mut name: Vec<char> = Vec::new();
            let mut q: usize = p2 + 1;
            while q < e
                invariant
                    p2 + 1 <= q <= e <= step@.len(),
                    name@ == step@.subrange(p2 + 1, q as int),
                decreases e - q,
            {
                name.push(step[q]);
                assert(name@ =~= step@.subrange(p2 + 1, q as int + 1));
                q += 1;
            }
            (access, Some(string_of_chars(&name)))
        } else {
            (access, None)
        }
    } else {
        let e = ident_end_x(step, p2);
        if e > p2 {
            let mut name: Vec<char> = Vec::new();
            let mut q: usize = p2;
            while q < e
                invariant
                    p2 <= q <= e <= step@.len(),
                    name@ == step@.subrange(p2 as int, q as int),
                decreases e - q,
            {
                name.push(step[q]);
                assert(name@ =~= step@.subrange(p2 as int, q as int + 1));
                q += 1;
            }
            (access, Some(string_of_chars(&name)))
        } else {
            (access, None)
        }
    }
}

proof fn lemma_acc_update_found(vm: Seq<(Seq<char>, AccessKind)>, j: int, n: Seq<char>, a: AccessKind)
    requires
        0 <= j < vm.len(),
        vm[j].0 == n,
        forall|i: int| 0 <= i < j ==> vm[i].0 != n,
    ensures
        acc_update(vm, n, a) == if vm[j].1 == AccessKind::Scan {
            vm
        } else {
            vm.update(j, (n, a))
        },
    decreases vm.len(),
{
    if j == 0 {
        if vm[0].1 == AccessKind::Scan {
        } else {
            assert((seq![(n, a)] + vm.drop_first()) =~= vm.update(0, (n, a)));
        }
    } else {
        assert(forall|i: int| 0 <= i < j - 1 ==> vm.drop_first()[i] == vm[i + 1]);
        lemma_acc_update_found(vm.drop_first(), j - 1, n, a);
        if vm[j].1 == AccessKind::Scan {
            assert((seq![vm[0]] + vm.drop_first()) =~= vm);
        } else {
            assert((seq![vm[0]] + vm.drop_first().update(j - 1, (n, a))) =~= vm.update(j, (n, a)));
        }
    }
}

proof fn lemma_acc_update_missing(vm: Seq<(Seq<char>, AccessKind)>, n: Seq<char>, a: AccessKind)
    requires
        forall|i: int| 0 <= i < vm.len() ==> vm[i].0 != n,
    ensures
        acc_update(vm, n, a) == vm.push((n, a)),
    decreases vm.len(),
{
    if vm.len() == 0 {
        assert(seq![(n, a)] =~= vm.push((n, a)));
    } else {
        assert(forall|i: int| 0 <= i < vm.drop_first().len() ==> vm.drop_first()[i] == vm[i + 1]);
        lemma_acc_update_missing(vm.drop_first(), n, a);
        assert((seq![vm[0]] + vm.drop_first().push((n, a))) =~= vm.push((n, a)));
    }
}

/// Records one step's classification: SCAN already recorded for this table is
/// kept; anything else is overwritten with the step's kind.
fn acc_update_x(m: &mut Vec<(String, AccessKind)>, name: String, a: AccessKind)
    ensures
        access_views(final(m)@) == acc_update(access_views(old(m)@), name@, a),
{
    let ghost vm = access_views(m@);
    let mut j: usize = 0;
    while j < m.len()
        invariant
            0 <= j <= m@.len(),
            m@ == old(m)@,
            vm == access_views(m@),
            vm.len() == m@.len(),
            forall|i: int| 0 <= i < j ==> m@[i].0@ != name@,
        decreases m@.len() - j,
    {
        assert(vm[j as int] == (m@[j as int].0@, m@[j as int].1));
        if m[j].0.eq(&name) {
            proof {
                lemma_acc_update_found(vm, j as int, name@, a);
            }
            if m[j].1 == AccessKind::Scan {
                return ;
            } else {
                let ghost before = m@;
                m.set(j, (name, a));
                proof {
                    assert(access_views(m@) =~= access_views(before).update(j as int, (name@, a)));
                }
                return ;
            }
        }
        j += 1;
    }
    proof {
        lemma_acc_update_missing(vm, name@, a);
    }
    let ghost before = m@;
    m.push((name, a));
    proof {
        assert(access_views(m@) =~= access_views(before).push((name@, a)));
    }
}

/// Analyzes a whole plan: returns the insight lines and the per-table access
/// classification, tables in first-seen order.
pub fn analyze_plan(steps: &Vec<String>) -> (r: (Vec<String>, Vec<(String, AccessKind)>))
    ensures
        str_views(r.0@) == insights_spec(str_views(steps@)),
        access_views(r.1@) == table_access_spec(str_views(steps@)),
{
    let kusing = chars_of("USING INDEX");
    let kscan = chars_of("SCAN ");
    let ksearch = chars_of("SEARCH ");
    let mut insights: Vec<String> = Vec::new();
    let mut access: Vec<(String, AccessKind)> = Vec::new();
    let mut k: usize = 0;
    while k < steps.len()
        invariant
            0 <= k <= steps@.len(),
            kusing@ == kw_using_index(),
            kscan@ == kw_scan(),
            ksearch@ == kw_search(),
            str_views(insights@) == insights_cat(str_views(steps@).take(k as int)),
            access_views(access@) == table_access_spec(str_views(steps@).take(k as int)),
        decreases steps@.len() - k,
    {
        let step = &steps[k];
        let cs = chars_of(step.as_str());
        let ghost sv = str_views(steps@).take(k as int + 1);
        proof {
            assert(sv.drop_last() =~= str_views(steps@).take(k as int));
            assert(sv.last() == steps@[k as int]@);
        }
        let ghost ins_pre = str_views(insights@);
        let has_using = find_ci_x(&cs, &kusing).is_some();
        let has_scan = find_ci_x(&cs, &kscan).is_some();
        let has_search = find_ci_x(&cs, &ksearch).is_some();
        if has_using {
            insights.push(concat_str("Index used: ", step.as_str()));
            proof {
                assert(str_views(insights@) =~= ins_pre.push(idx_prefix() + steps@[k as int]@));
            }
        }
        let ghost ins_mid = str_views(insights@);
        if has_scan && !has_search {
            insights.push(concat_str("Full scan: ", step.as_str()));
            proof {
                assert(str_views(insights@) =~= ins_mid.push(scan_prefix() + steps@[k as int]@));
            }
        }
        proof {
            assert(str_views(insights@) =~= ins_pre + step_insights(steps@[k as int]@));
        }
        let (a, nm) = analyze_step(&cs);
        match nm {
            Some(n) => {
                acc_update_x(&mut access, n, a);
            },
            None => {},
        }
        k += 1;
    }
    proof {
        assert(str_views(steps@).take(steps@.len() as int) =~= str_views(steps@));
    }
    if insights.len() == 0 && steps.len() > 0 {
        insights.push(String::from_str("Plan analyzed with no obvious full scans"));
        proof {
            assert(str_views(insights@) =~= seq![fallback_insight()]);
        }
    }
    (insights, access)
}

} // verus!
