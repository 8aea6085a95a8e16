use vstd::prelude::*;
use crate::text::{contains_chars, contains_text, decimal, decimal_chars, chars_of, lower_of, lowercase};

verus! {

/// One entry of the process table, as the telemetry provider reports it.
#[derive(Clone, Debug)]
pub struct ProcessRecord {
    pub pid: u32,
    pub name: String,
    pub parent: Option<u32>,
    pub status: String,
    pub exe: Option<String>,
    pub cwd: Option<String>,
    /// CPU usage in hundredths of a percent.
    pub cpu_usage: u32,
    /// Resident memory in bytes.
    pub memory: u64,
    /// Virtual memory in bytes.
    pub virtual_memory: u64,
    pub disk_read: u64,
    pub disk_written: u64,
    /// Run time in seconds.
    pub run_time: u64,
}

#[derive(Clone, Copy, Debug, PartialEq, Eq, Structural)]
pub enum SortOrder {
    /// CPU usage, highest first.
    Cpu,
    /// Resident memory, largest first.
    Memory,
    /// Identifier, smallest first.
    Pid,
    /// Run time, longest first.
    RunTime,
}

/// Whether `a` is listed before `b` under `order`. Equal keys are listed by
/// identifier, smallest first.
pub open spec fn precedes(a: ProcessRecord, b: ProcessRecord, order: SortOrder) -> bool {
    match order {
        SortOrder::Cpu => a.cpu_usage > b.cpu_usage || (a.cpu_usage == b.cpu_usage && a.pid
            < b.pid),
        SortOrder::Memory => a.memory > b.memory || (a.memory == b.memory && a.pid < b.pid),
        SortOrder::Pid => a.pid < b.pid,
        SortOrder::RunTime => a.run_time > b.run_time || (a.run_time == b.run_time && a.pid
            < b.pid),
    }
}

/// No two records share an identifier.
pub open spec fn distinct_pids(raw: Seq<ProcessRecord>) -> bool {
    forall|i: int, j: int|
        0 <= i < raw.len() && 0 <= j < raw.len() && i != j ==> #[trigger] raw[i].pid
            != #[trigger] raw[j].pid
}

/// Every position of `v` is an index into `raw`.
pub open spec fn indexes(raw: Seq<ProcessRecord>, v: Seq<usize>) -> bool {
    forall|i: int| 0 <= i < v.len() ==> #[trigger] v[i] < raw.len()
}

/// The records that `v` points to are listed in `order`, each once.
pub open spec fn ordered(raw: Seq<ProcessRecord>, v: Seq<usize>, order: SortOrder) -> bool {
    forall|i: int, j: int|
        0 <= i < j < v.len() ==> precedes(raw[#[trigger] v[i] as int], raw[#[trigger] v[j] as int], order)
}

/// Whether a record's lower-cased name, or its identifier in decimal,
/// holds the (already lower-cased) query `q`.
pub open spec fn record_matches(r: ProcessRecord, q: Seq<char>) -> bool {
    contains_text(lower_of(r.name@), q) || contains_text(decimal(r.pid as nat), q)
}

/// Whether a record stays in a view filtered by `q` (no filter keeps all).
pub open spec fn passes(r: ProcessRecord, q: Option<Seq<char>>) -> bool {
    match q {
        Some(t) => record_matches(r, t),
        None => true,
    }
}

/// The filter that a typed query sets: none for an empty query, else the
/// query lower-cased.
pub open spec fn filter_of(query: Seq<char>) -> Option<Seq<char>> {
    if query.len() == 0 {
        None
    } else {
        Some(lower_of(query))
    }
}

/// The predicate on indices into `raw` that a filter `q` keeps.
pub open spec fn keeps(raw: Seq<ProcessRecord>, q: Option<Seq<char>>) -> spec_fn(usize) -> bool {
    |k: usize| passes(raw[k as int], q)
}

/// `v` is the process view of `raw` under `order` and filter `q`: the indices
/// of exactly the records that pass the filter, listed in `order`.
pub open spec fn is_process_view(
    raw: Seq<ProcessRecord>,
    order: SortOrder,
    q: Option<Seq<char>>,
    v: Seq<usize>,
) -> bool {
    &&& indexes(raw, v)
    &&& ordered(raw, v, order)
    &&& forall|i: int| 0 <= i < v.len() ==> passes(raw[#[trigger] v[i] as int], q)
    &&& forall|k: usize| k < raw.len() && passes(#[trigger] raw[k as int], q) ==> v.contains(k)
}

/// Two records with different identifiers are ordered one way or the other,
/// never both, and the order is transitive.
pub proof fn lemma_precedes_order(a: ProcessRecord, b: ProcessRecord, c: ProcessRecord, order: SortOrder)
    ensures
        !precedes(a, a, order),
        precedes(a, b, order) ==> !precedes(b, a, order),
        a.pid != b.pid ==> precedes(a, b, order) || precedes(b, a, order),
        precedes(a, b, order) && precedes(b, c, order) ==> precedes(a, c, order),
{
}

/// Two ordered index lists over the same records that hold the same indices
/// are equal.
pub proof fn lemma_ordered_unique(raw: Seq<ProcessRecord>, order: SortOrder, v1: Seq<usize>, v2: Seq<usize>)
    requires
        indexes(raw, v1),
        indexes(raw, v2),
        ordered(raw, v1, order),
        ordered(raw, v2, order),
        forall|k: usize| v1.contains(k) <==> v2.contains(k),
    ensures
        v1 == v2,
    decreases v1.len(),
{
    if v1.len() == 0 {
        if v2.len() > 0 {
            assert(v2.contains(v2[0]));
        }
        assert(v1 =~= v2);
    } else if v2.len() == 0 {
        assert(v1.contains(v1[0]));
    } else {
        let x = v1[0];
        let y = v2[0];
        assert(v1.contains(x));
        assert(v2.contains(y));
        if x != y {
            let m = choose|m: int| 0 <= m < v2.len() && v2[m] == x;
            let n = choose|n: int| 0 <= n < v1.len() && v1[n] == y;
            assert(precedes(raw[y as int], raw[x as int], order));
            assert(precedes(raw[x as int], raw[y as int], order));
            lemma_precedes_order(raw[x as int], raw[y as int], raw[x as int], order);
        }
        let t1 = v1.drop_first();
        let t2 = v2.drop_first();
        assert forall|i: int, j: int| 0 <= i < j < t1.len() implies precedes(
            raw[t1[i] as int],
            raw[t1[j] as int],
            order,
        ) by {
            assert(t1[i] == v1[i + 1] && t1[j] == v1[j + 1]);
        }
        assert forall|i: int, j: int| 0 <= i < j < t2.len() implies precedes(
            raw[t2[i] as int],
            raw[t2[j] as int],
            order,
        ) by {
            assert(t2[i] == v2[i + 1] && t2[j] == v2[j + 1]);
        }
        assert forall|k: usize| t1.contains(k) <==> t2.contains(k) by {
            if t1.contains(k) {
                let i = choose|i: int| 0 <= i < t1.len() && t1[i] == k;
                assert(v1[i + 1] == k);
                assert(v1.contains(k));
                let j = choose|j: int| 0 <= j < v2.len() && v2[j] == k;
                if j == 0 {
                    assert(precedes(raw[x as int], raw[v1[i + 1] as int], order));
                    lemma_precedes_order(raw[x as int], raw[x as int], raw[x as int], order);
                }
                assert(t2[j - 1] == k);
            }
            if t2.contains(k) {
                let i = choose|i: int| 0 <= i < t2.len() && t2[i] == k;
                assert(v2[i + 1] == k);
                assert(v2.contains(k));
                let j = choose|j: int| 0 <= j < v1.len() && v1[j] == k;
                if j == 0 {
                    assert(precedes(raw[y as int], raw[v2[i + 1] as int], order));
                    lemma_precedes_order(raw[y as int], raw[y as int], raw[y as int], order);
                }
                assert(t1[j - 1] == k);
            }
        }
        lemma_ordered_unique(raw, order, t1, t2);
        assert(v1 =~= seq![x] + t1);
        assert(v2 =~= seq![y] + t2);
    }
}

/// The process view of a table under an order and a filter is unique: it is a
/// function of the table, the order and the filter alone.
pub proof fn lemma_view_unique(
    raw: Seq<ProcessRecord>,
    order: SortOrder,
    q: Option<Seq<char>>,
    v1: Seq<usize>,
    v2: Seq<usize>,
)
    requires
        is_process_view(raw, order, q, v1),
        is_process_view(raw, order, q, v2),
    ensures
        v1 == v2,
{
    assert forall|k: usize| v1.contains(k) <==> v2.contains(k) by {
        if v1.contains(k) {
            let i = choose|i: int| 0 <= i < v1.len() && v1[i] == k;
            assert(passes(raw[v1[i] as int], q));
        }
        if v2.contains(k) {
            let i = choose|i: int| 0 <= i < v2.len() && v2[i] == k;
            assert(passes(raw[v2[i] as int], q));
        }
    }
    lemma_ordered_unique(raw, order, v1, v2);
}

/// Whether `a` is listed before `b` under `order`.
pub fn goes_before(a: &ProcessRecord, b: &ProcessRecord, order: SortOrder) -> (r: bool)
    ensures
        r == precedes(*a, *b, order),
{
    match order {
        SortOrder::Cpu => a.cpu_usage > b.cpu_usage || (a.cpu_usage == b.cpu_usage && a.pid
            < b.pid),
        SortOrder::Memory => a.memory > b.memory || (a.memory == b.memory && a.pid < b.pid),
        SortOrder::Pid => a.pid < b.pid,
        SortOrder::RunTime => a.run_time > b.run_time || (a.run_time == b.run_time && a.pid
            < b.pid),
    }
}

/// Whether no two records of `raw` share an identifier.
pub fn pids_distinct(raw: &Vec<ProcessRecord>) -> (r: bool)
    ensures
        r == distinct_pids(raw@),
{
    let n = raw.len();
    let mut i: usize = 0;
    while i < n
        invariant
            n == raw@.len(),
            i <= n,
            forall|a: int, b: int|
                0 <= a < i && 0 <= b < n && a != b ==> #[trigger] raw@[a].pid != #[trigger] raw@[b].pid,
        decreases n - i,
    {
        let mut j: usize = 0;
        while j < n
            invariant
                n == raw@.len(),
                i < n,
                j <= n,
                forall|a: int, b: int|
                    0 <= a < i && 0 <= b < n && a != b ==> #[trigger] raw@[a].pid != #[trigger] raw@[b].pid,
                forall|b: int| 0 <= b < j && b != i ==> raw@[i as int].pid != #[trigger] raw@[b].pid,
            decreases n - j,
        {
            if j != i && raw[i].pid == raw[j].pid {
                return false;
            }
            j = j + 1;
        }
        i = i + 1;
    }
    true
}

/// The indices of all records of `raw`, listed in `order`.
pub fn sort_indices(raw: &Vec<ProcessRecord>, order: SortOrder) -> (r: Vec<usize>)
    requires
        distinct_pids(raw@),
    ensures
        is_process_view(raw@, order, None, r@),
{
    let n = raw.len();
    let mut r: Vec<usize> = Vec::new();
    let mut i: usize = 0;
    while i < n
        invariant
            n == raw@.len(),
            i <= n,
            distinct_pids(raw@),
            forall|a: int| 0 <= a < r@.len() ==> #[trigger] r@[a] < i,
            ordered(raw@, r@, order),
            forall|k: usize| k < i ==> r@.contains(k),
        decreases n - i,
    {
        let mut p: usize = 0;
        let mut found = false;
        while p < r.len() && !found
            invariant
                n == raw@.len(),
                i < n,
                distinct_pids(raw@),
                forall|a: int| 0 <= a < r@.len() ==> #[trigger] r@[a] < i,
                p <= r@.len(),
                found ==> p < r@.len() && precedes(raw@[i as int], raw@[r@[p as int] as int], order),
                forall|a: int| 0 <= a < p ==> precedes(raw@[#[trigger] r@[a] as int], raw@[i as int], order),
            decreases r@.len() - p + (if found { 0int } else { 1int }),
        {
            if goes_before(&raw[i], &raw[r[p]], order) {
                found = true;
            } else {
                proof {
                    let c = r@[p as int];
                    assert(c < i);
                    lemma_precedes_order(raw@[c as int], raw@[i as int], raw@[i as int], order);
                    assert(raw@[c as int].pid != raw@[i as int].pid);
                }
                p = p + 1;
            }
        }
        let ghost old_r = r@;
        r.insert(p, i);
        proof {
            assert(r@ =~= old_r.insert(p as int, i));
            assert forall|a: int| 0 <= a < r@.len() implies #[trigger] r@[a] < i + 1 by {
                if a < p {
                    assert(r@[a] == old_r[a]);
                } else if a > p {
                    assert(r@[a] == old_r[a - 1]);
                }
            }
            assert forall|a: int, b: int| 0 <= a < b < r@.len() implies precedes(
                raw@[r@[a] as int],
                raw@[r@[b] as int],
                order,
            ) by {
                if b < p {
                    assert(r@[a] == old_r[a] && r@[b] == old_r[b]);
                } else if b == p {
                    assert(r@[a] == old_r[a]);
                } else if a < p {
                    assert(r@[a] == old_r[a] && r@[b] == old_r[b - 1]);
                } else if a == p {
                    assert(r@[b] == old_r[b - 1]);
                    if b - 1 > p {
                        assert(precedes(raw@[old_r[p as int] as int], raw@[old_r[b - 1] as int], order));
                        lemma_precedes_order(raw@[i as int], raw@[old_r[p as int] as int], raw@[old_r[b - 1] as int], order);
                    }
                } else {
                    assert(r@[a] == old_r[a - 1] && r@[b] == old_r[b - 1]);
                }
            }
            assert forall|k: usize| k < i + 1 implies r@.contains(k) by {
                if k == i {
                    assert(r@[p as int] == i);
                } else {
                    assert(old_r.contains(k));
                    let j = choose|j: int| 0 <= j < old_r.len() && old_r[j] == k;
                    if j < p {
                        assert(r@[j] == k);
                    } else {
                        assert(r@[j + 1] == k);
                    }
                }
            }
        }
        i = i + 1;
    }
    r
}

/// Filtering keeps the relative order: a filtered ordered list is ordered.
pub proof fn lemma_filter_ordered(raw: Seq<ProcessRecord>, order: SortOrder, v: Seq<usize>, p: spec_fn(usize) -> bool)
    requires
        indexes(raw, v),
        ordered(raw, v, order),
    ensures
        indexes(raw, v.filter(p)),
        ordered(raw, v.filter(p), order),
        forall|k: usize| #[trigger] v.filter(p).contains(k) <==> v.contains(k) && p(k),
    decreases v.len(),
{
    reveal(Seq::filter);
    if v.len() > 0 {
        let init = v.drop_last();
        assert forall|i: int, j: int| 0 <= i < j < init.len() implies precedes(
            raw[init[i] as int],
            raw[init[j] as int],
            order,
        ) by {
            assert(init[i] == v[i] && init[j] == v[j]);
        }
        lemma_filter_ordered(raw, order, init, p);
        let f = init.filter(p);
        let last = v.last();
        assert forall|k: usize| v.contains(k) <==> init.contains(k) || k == last by {
            if v.contains(k) {
                let j = choose|j: int| 0 <= j < v.len() && v[j] == k;
                if j < v.len() - 1 {
                    assert(init[j] == k);
                }
            }
            if init.contains(k) {
                let j = choose|j: int| 0 <= j < init.len() && init[j] == k;
                assert(v[j] == k);
            }
            if k == last {
                assert(v[v.len() - 1] == k);
            }
        }
        if p(last) {
            let g = f.push(last);
            assert(v.filter(p) == g);
            assert forall|i: int, j: int| 0 <= i < j < g.len() implies precedes(
                raw[g[i] as int],
                raw[g[j] as int],
                order,
            ) by {
                if j < g.len() - 1 {
                    assert(g[i] == f[i] && g[j] == f[j]);
                } else {
                    assert(g[i] == f[i]);
                    assert(f.contains(f[i]));
                    let m = choose|m: int| 0 <= m < init.len() && init[m] == f[i];
                    assert(v[m] == f[i]);
                    assert(v[v.len() - 1] == last);
                }
            }
            assert forall|k: usize| g.contains(k) <==> f.contains(k) || k == last by {
                if g.contains(k) {
                    let j = choose|j: int| 0 <= j < g.len() && g[j] == k;
                    if j < g.len() - 1 {
                        assert(f[j] == k);
                    }
                }
                if f.contains(k) {
                    let j = choose|j: int| 0 <= j < f.len() && f[j] == k;
                    assert(g[j] == k);
                }
                if k == last {
                    assert(g[g.len() - 1] == k);
                }
            }
            assert forall|a: int| 0 <= a < g.len() implies #[trigger] g[a] < raw.len() by {
                if a < g.len() - 1 {
                    assert(g[a] == f[a]);
                } else {
                    assert(v[v.len() - 1] == last);
                }
            }
        } else {
            assert(v.filter(p) == f);
        }
    }
}

/// Filtering twice by the same predicate is filtering once.
pub proof fn lemma_filter_idempotent(v: Seq<usize>, p: spec_fn(usize) -> bool)
    ensures
        v.filter(p).filter(p) == v.filter(p),
    decreases v.len(),
{
    reveal(Seq::filter);
    if v.len() > 0 {
        lemma_filter_idempotent(v.drop_last(), p);
        let f = v.drop_last().filter(p);
        if p(v.last()) {
            assert(f.push(v.last()).drop_last() =~= f);
        }
    }
}

/// The entries of `v` whose records pass the filter `q`, in their order.
pub fn filter_indices(raw: &Vec<ProcessRecord>, v: &Vec<usize>, q: &Option<Vec<char>>) -> (r: Vec<usize>)
    requires
        indexes(raw@, v@),
    ensures
        r@ == v@.filter(keeps(raw@, view_filter(q))),
{
    let ghost p = keeps(raw@, view_filter(q));
    let mut r: Vec<usize> = Vec::new();
    let mut i: usize = 0;
    while i < v.len()
        invariant
            indexes(raw@, v@),
            i <= v@.len(),
            p == keeps(raw@, view_filter(q)),
            r@ == v@.subrange(0, i as int).filter(p),
        decreases v@.len() - i,
    {
        let k = v[i];
        let keep = match q {
            Some(t) => matches_query(&raw[k], t),
            None => true,
        };
        proof {
            reveal(Seq::filter);
            assert(v@.subrange(0, i + 1).drop_last() =~= v@.subrange(0, i as int));
        }
        if keep {
            r.push(k);
        }
        i = i + 1;
    }
    proof {
        assert(v@.subrange(0, v@.len() as int) =~= v@);
    }
    r
}

/// The filter that an optional lower-cased query stands for.
pub open spec fn view_filter(q: &Option<Vec<char>>) -> Option<Seq<char>> {
    match q {
        Some(t) => Some(t@),
        None => None,
    }
}

/// Whether a record whose name, lower-cased, is `lowered_name` and whose
/// identifier is `pid` matches the lower-cased query `q`.
pub fn matches_folded(lowered_name: &Vec<char>, pid: u32, q: &Vec<char>) -> (r: bool)
    ensures
        r == (contains_text(lowered_name@, q@) || contains_text(decimal(pid as nat), q@)),
{
    if contains_chars(lowered_name, q) {
        true
    } else {
        let digits = decimal_chars(pid);
        contains_chars(&digits, q)
    }
}

/// Whether `rec` matches the lower-cased query `q`.
pub fn matches_query(rec: &ProcessRecord, q: &Vec<char>) -> (r: bool)
    ensures
        r == record_matches(*rec, q@),
{
    let lowered = lowercase(rec.name.as_str());
    let name = chars_of(lowered.as_str());
    matches_folded(&name, rec.pid, q)
}

/// The filter that the typed `query` sets.
pub fn query_filter(query: &String) -> (r: Option<Vec<char>>)
    ensures
        view_filter(&r) == filter_of(query@),
{
    let n = query.as_str().unicode_len();
    if n == 0 {
        None
    } else {
        let lowered = lowercase(query.as_str());
        Some(chars_of(lowered.as_str()))
    }
}

/// The process view of `raw`: the records that match `query`, listed in
/// `order`. An empty query filters nothing.
pub fn build_view(raw: &Vec<ProcessRecord>, order: SortOrder, query: &String) -> (r: Vec<usize>)
    requires
        distinct_pids(raw@),
    ensures
        is_process_view(raw@, order, filter_of(query@), r@),
{
    let all = sort_indices(raw, order);
    let q = query_filter(query);
    let r = filter_indices(raw, &all, &q);
    proof {
        let p = keeps(raw@, view_filter(&q));
        lemma_filter_ordered(raw@, order, all@, p);
        assert forall|k: usize| k < raw@.len() && passes(#[trigger] raw@[k as int], filter_of(query@)) implies r@.contains(k) by {
            assert(all@.contains(k));
            assert(p(k));
        }
        assert forall|i: int| 0 <= i < r@.len() implies passes(raw@[#[trigger] r@[i] as int], filter_of(query@)) by {
            assert(r@.contains(r@[i]));
            assert(p(r@[i]));
        }
    }
    r
}

/// A filter whose predicate every entry already meets leaves the list as it is.
pub proof fn lemma_filter_all_pass(v: Seq<usize>, p: spec_fn(usize) -> bool)
    requires
        forall|i: int| 0 <= i < v.len() ==> p(#[trigger] v[i]),
    ensures
        v.filter(p) == v,
    decreases v.len(),
{
    reveal(Seq::filter);
    if v.len() > 0 {
        let init = v.drop_last();
        assert forall|i: int| 0 <= i < init.len() implies p(#[trigger] init[i]) by {
            assert(init[i] == v[i]);
        }
        lemma_filter_all_pass(init, p);
        assert(v.last() == v[v.len() - 1]);
        assert(init.push(v.last()) =~= v);
    }
}

/// Applying a query to a view it already filters changes nothing: filtering is
/// idempotent on process views.
pub proof fn lemma_refilter_view(raw: Seq<ProcessRecord>, order: SortOrder, q: Option<Seq<char>>, v: Seq<usize>)
    requires
        is_process_view(raw, order, q, v),
    ensures
        v.filter(keeps(raw, q)) == v,
        v.filter(keeps(raw, q)).filter(keeps(raw, q)) == v.filter(keeps(raw, q)),
{
    let p = keeps(raw, q);
    assert forall|i: int| 0 <= i < v.len() implies p(#[trigger] v[i]) by {
        assert(passes(raw[v[i] as int], q));
    }
    lemma_filter_all_pass(v, p);
    lemma_filter_idempotent(v, p);
}

/// The view with no filter holds every record: clearing the query gives back
/// the full table in sorted order, and only that.
pub proof fn lemma_unfiltered_view(raw: Seq<ProcessRecord>, order: SortOrder, v: Seq<usize>, sorted: Seq<usize>)
    requires
        is_process_view(raw, order, None, v),
        is_process_view(raw, order, None, sorted),
    ensures
        v == sorted,
        forall|k: usize| k < raw.len() ==> v.contains(k),
{
    lemma_view_unique(raw, order, None, v, sorted);
    assert forall|k: usize| k < raw.len() implies v.contains(k) by {
        assert(passes(raw[k as int], None));
    }
}

} // verus!
