//! Which rows the job lists show: jobs whose name matches the search, in order, with the waiting
//! tasks of an array drawn together into one row.

use vstd::hash_map::StringHashMap;
use vstd::hash_set::StringHashSet;
use vstd::prelude::*;

use crate::job::{job_views, Job, JobView};
use crate::text::{contains, has, lowercase, same, texts, to_lowercase};

verus! {

/// One row of a job list.
#[derive(Clone, Copy, Debug, PartialEq, Eq, Structural)]
pub enum DisplayEntry {
    /// The job at this position.
    Job(usize),
    /// The waiting tasks of an array: the position of the first of them and how many there are.
    CollapsedGroup { index: usize, total: usize },
}

impl DisplayEntry {
    /// The position of the job that the row stands for.
    pub open spec fn position(self) -> usize {
        match self {
            DisplayEntry::Job(i) => i,
            DisplayEntry::CollapsedGroup { index, total } => index,
        }
    }

    /// How many jobs the row stands for.
    pub open spec fn weight(self) -> nat {
        match self {
            DisplayEntry::Job(i) => 1,
            DisplayEntry::CollapsedGroup { index, total } => total as nat,
        }
    }

    /// The position of the job that the row stands for.
    pub fn job_index(&self) -> (r: usize)
        ensures
            r == self.position(),
    {
        match self {
            DisplayEntry::Job(i) => *i,
            DisplayEntry::CollapsedGroup { index, .. } => *index,
        }
    }
}

// ---------------------------------------------------------------------------------------------
// Search and order
// ---------------------------------------------------------------------------------------------
/// Does the name match the search? Case does not matter, and an empty search matches every name.
pub open spec fn name_matches(name: Seq<char>, query: Seq<char>) -> bool {
    query.len() == 0 || contains(lowercase(name), lowercase(query))
}

/// The positions below `n` of the jobs that match the search, in ascending order.
pub open spec fn matching_upto(jobs: Seq<JobView>, query: Seq<char>, n: nat) -> Seq<usize>
    decreases n,
{
    if n == 0 {
        Seq::empty()
    } else {
        let before = matching_upto(jobs, query, (n - 1) as nat);
        if name_matches(jobs[n - 1].name, query) {
            before.push((n - 1) as usize)
        } else {
            before
        }
    }
}

/// The positions of the jobs that match the search, in the order in which they are listed.
pub open spec fn listed(jobs: Seq<JobView>, query: Seq<char>, reversed: bool) -> Seq<usize> {
    let ascending = matching_upto(jobs, query, jobs.len());
    if reversed {
        ascending.reverse()
    } else {
        ascending
    }
}

/// Every position in the list is that of a job.
pub open spec fn in_range(list: Seq<usize>, jobs: Seq<JobView>) -> bool {
    forall|k: int| 0 <= k < list.len() ==> (#[trigger] list[k]) < jobs.len()
}

proof fn lemma_matching_upto(jobs: Seq<JobView>, query: Seq<char>, n: nat)
    requires
        n <= jobs.len() <= usize::MAX,
    ensures
        matching_upto(jobs, query, n).len() <= n,
        forall|k: int|
            0 <= k < matching_upto(jobs, query, n).len() ==> {
                &&& (#[trigger] matching_upto(jobs, query, n)[k]) < n
                &&& name_matches(jobs[matching_upto(jobs, query, n)[k] as int].name, query)
            },
        forall|k: int, l: int|
            0 <= k < l < matching_upto(jobs, query, n).len() ==> matching_upto(jobs, query, n)[k]
                < matching_upto(jobs, query, n)[l],
        forall|i: int|
            0 <= i < n && #[trigger] name_matches(jobs[i].name, query) ==> matching_upto(
                jobs,
                query,
                n,
            ).contains(i as usize),
    decreases n,
{
    if n > 0 {
        let m = (n - 1) as nat;
        lemma_matching_upto(jobs, query, m);
        let before = matching_upto(jobs, query, m);
        let after = matching_upto(jobs, query, n);
        assert forall|i: int| 0 <= i < n && #[trigger] name_matches(
            jobs[i].name,
            query,
        ) implies after.contains(i as usize) by {
            if i < m {
                let k = choose|k: int| 0 <= k < before.len() && before[k] == i as usize;
                assert(after[k] == i as usize);
            } else {
                assert(after[before.len() as int] == i as usize);
            }
        }
    }
}

/// The list holds each job that matches the search exactly once, and no other: in ascending
/// order, or in descending order where it is reversed.
pub proof fn law_list_is_exact(jobs: Seq<JobView>, query: Seq<char>, reversed: bool)
    requires
        jobs.len() <= usize::MAX,
    ensures
        in_range(listed(jobs, query, reversed), jobs),
        listed(jobs, query, reversed).len() <= jobs.len(),
        forall|i: usize|
            #[trigger] listed(jobs, query, reversed).contains(i) <==> i < jobs.len()
                && name_matches(jobs[i as int].name, query),
        forall|k: int, l: int|
            0 <= k < l < listed(jobs, query, reversed).len() ==> if reversed {
                listed(jobs, query, reversed)[k] > listed(jobs, query, reversed)[l]
            } else {
                listed(jobs, query, reversed)[k] < listed(jobs, query, reversed)[l]
            },
{
    let ascending = matching_upto(jobs, query, jobs.len());
    let list = listed(jobs, query, reversed);
    lemma_matching_upto(jobs, query, jobs.len());
    assert forall|i: usize| #[trigger] list.contains(i) <==> i < jobs.len() && name_matches(
        jobs[i as int].name,
        query,
    ) by {
        if list.contains(i) {
            let k = choose|k: int| 0 <= k < list.len() && list[k] == i;
            assert(list[k] == ascending[if reversed {
                ascending.len() - 1 - k
            } else {
                k
            }]);
        }
        if i < jobs.len() && name_matches(jobs[i as int].name, query) {
            let k = choose|k: int| 0 <= k < ascending.len() && ascending[k] == i;
            assert(list[if reversed {
                ascending.len() - 1 - k
            } else {
                k
            }] == i);
        }
    }
    assert forall|k: int| 0 <= k < list.len() implies (#[trigger] list[k]) < jobs.len() by {
        assert(list.contains(list[k]));
    }
}

/// With nothing searched for, every job is listed.
pub proof fn law_empty_search_lists_all(jobs: Seq<JobView>)
    requires
        jobs.len() <= usize::MAX,
    ensures
        listed(jobs, Seq::empty(), false) == Seq::new(jobs.len(), |i: int| i as usize),
{
    lemma_all_match(jobs, jobs.len());
}

proof fn lemma_all_match(jobs: Seq<JobView>, n: nat)
    requires
        n <= jobs.len() <= usize::MAX,
    ensures
        matching_upto(jobs, Seq::empty(), n) == Seq::new(n, |i: int| i as usize),
    decreases n,
{
    if n > 0 {
        lemma_all_match(jobs, (n - 1) as nat);
    }
    assert(matching_upto(jobs, Seq::empty(), n) =~= Seq::new(n, |i: int| i as usize));
}

/// With nothing searched for, as many positions are listed as there are jobs.
pub proof fn lemma_all_listed(jobs: Seq<JobView>, reversed: bool)
    requires
        jobs.len() <= usize::MAX,
    ensures
        listed(jobs, Seq::empty(), reversed).len() == jobs.len(),
{
    lemma_all_match(jobs, jobs.len());
}

/// The positions below `n` of the names that hold the wanted text, in ascending order.
pub open spec fn holding_upto(names: Seq<Seq<char>>, wanted: Seq<char>, n: nat) -> Seq<usize>
    decreases n,
{
    if n == 0 {
        Seq::empty()
    } else {
        let before = holding_upto(names, wanted, (n - 1) as nat);
        if wanted.len() == 0 || contains(names[n - 1], wanted) {
            before.push((n - 1) as usize)
        } else {
            before
        }
    }
}

/// The positions of the names that hold the wanted text, in ascending or in descending order.
pub open spec fn holding(names: Seq<Seq<char>>, wanted: Seq<char>, reversed: bool) -> Seq<usize> {
    let ascending = holding_upto(names, wanted, names.len());
    if reversed {
        ascending.reverse()
    } else {
        ascending
    }
}

/// Finds the names that hold the wanted text.
pub fn find_names(names: &Vec<String>, wanted: &str, reversed: bool) -> (list: Vec<usize>)
    ensures
        list@ == holding(texts(names@), wanted@, reversed),
{
    let mut ascending: Vec<usize> = Vec::new();
    let mut i: usize = 0;
    while i < names.len()
        invariant
            i <= names@.len(),
            ascending@ == holding_upto(texts(names@), wanted@, i as nat),
        decreases names@.len() - i,
    {
        if wanted.is_empty() || has(names[i].as_str(), wanted) {
            ascending.push(i);
        }
        i += 1;
    }
    if !reversed {
        return ascending;
    }
    let mut list: Vec<usize> = Vec::new();
    let mut left: usize = ascending.len();
    while left > 0
        invariant
            left <= ascending@.len(),
            list@ == ascending@.reverse().take(ascending@.len() - left),
        decreases left,
    {
        left -= 1;
        list.push(ascending[left]);
        assert(list@ =~= ascending@.reverse().take(ascending@.len() - left));
    }
    assert(list@ =~= ascending@.reverse());
    list
}

proof fn lemma_holding_is_matching(
    jobs: Seq<JobView>,
    names: Seq<Seq<char>>,
    query: Seq<char>,
    n: nat,
)
    requires
        n <= jobs.len() == names.len(),
        forall|i: int| 0 <= i < jobs.len() ==> #[trigger] names[i] == lowercase(jobs[i].name),
        lowercase(query).len() == 0 <==> query.len() == 0,
    ensures
        holding_upto(names, lowercase(query), n) == matching_upto(jobs, query, n),
    decreases n,
{
    if n > 0 {
        lemma_holding_is_matching(jobs, names, query, (n - 1) as nat);
        assert(names[n - 1] == lowercase(jobs[n - 1].name));
    }
}

/// Lists the jobs that match the search.
pub fn list_jobs(jobs: &Vec<Job>, query: &str, reversed: bool) -> (list: Vec<usize>)
    ensures
        list@ == listed(job_views(jobs@), query@, reversed),
{
    let wanted = to_lowercase(query);
    let ghost views = job_views(jobs@);
    let mut names: Vec<String> = Vec::new();
    let mut i: usize = 0;
    while i < jobs.len()
        invariant
            i <= jobs@.len(),
            views == job_views(jobs@),
            names@.len() == i,
            forall|k: int| 0 <= k < i ==> (#[trigger] names@[k])@ == lowercase(views[k].name),
        decreases jobs@.len() - i,
    {
        assert(views[i as int] == jobs@[i as int]@);
        names.push(to_lowercase(jobs[i].name.as_str()));
        i += 1;
    }
    proof {
        assert forall|k: int| 0 <= k < views.len() implies #[trigger] texts(names@)[k] == lowercase(
            views[k].name,
        ) by {
            assert(names@[k]@ == lowercase(views[k].name));
        }
        lemma_holding_is_matching(views, texts(names@), query@, views.len());
    }
    find_names(&names, wanted.as_str(), reversed)
}

// ---------------------------------------------------------------------------------------------
// Drawing the waiting tasks of an array together
// ---------------------------------------------------------------------------------------------
/// The `k`-th listed job is a waiting task of the array `id`.
pub open spec fn waits_for(jobs: Seq<JobView>, list: Seq<usize>, id: Seq<char>, k: int) -> bool {
    jobs[list[k] as int].waits_in_array() && jobs[list[k] as int].array_id == id
}

/// How many of the first `n` listed jobs are waiting tasks of the array `id`.
pub open spec fn waiting(
    jobs: Seq<JobView>,
    list: Seq<usize>,
    id: Seq<char>,
    n: nat,
) -> nat
    decreases n,
{
    if n == 0 {
        0
    } else {
        waiting(jobs, list, id, (n - 1) as nat) + (if waits_for(jobs, list, id, n - 1) {
            1nat
        } else {
            0nat
        })
    }
}

/// The waiting tasks of the array `id` are drawn together: there are at least two of them, and
/// the array is not shown expanded.
pub open spec fn collapsed(
    jobs: Seq<JobView>,
    list: Seq<usize>,
    expanded: Set<Seq<char>>,
    id: Seq<char>,
) -> bool {
    waiting(jobs, list, id, list.len()) > 1 && !expanded.contains(id)
}

/// The `k`-th listed job is one of several that are drawn together.
pub open spec fn grouped(
    jobs: Seq<JobView>,
    list: Seq<usize>,
    expanded: Set<Seq<char>>,
    k: int,
) -> bool {
    let job = jobs[list[k] as int];
    job.waits_in_array() && collapsed(jobs, list, expanded, job.array_id)
}

/// The row of the `k`-th listed job. Of those that are drawn together the first has the row.
pub open spec fn row_at(
    jobs: Seq<JobView>,
    list: Seq<usize>,
    expanded: Set<Seq<char>>,
    k: int,
) -> Option<DisplayEntry> {
    let id = jobs[list[k] as int].array_id;
    if !grouped(jobs, list, expanded, k) {
        Some(DisplayEntry::Job(list[k]))
    } else if waiting(jobs, list, id, k as nat) == 0 {
        Some(
            DisplayEntry::CollapsedGroup {
                index: list[k],
                total: waiting(jobs, list, id, list.len()) as usize,
            },
        )
    } else {
        None
    }
}

/// The rows of the first `n` listed jobs.
pub open spec fn rows_upto(
    jobs: Seq<JobView>,
    list: Seq<usize>,
    expanded: Set<Seq<char>>,
    n: nat,
) -> Seq<DisplayEntry>
    decreases n,
{
    if n == 0 {
        Seq::empty()
    } else {
        let before = rows_upto(jobs, list, expanded, (n - 1) as nat);
        match row_at(jobs, list, expanded, n - 1) {
            Some(row) => before.push(row),
            None => before,
        }
    }
}

/// The rows of the listed jobs, with the waiting tasks of each array that is not expanded drawn
/// together.
pub open spec fn grouped_rows(
    jobs: Seq<JobView>,
    list: Seq<usize>,
    expanded: Set<Seq<char>>,
) -> Seq<DisplayEntry> {
    rows_upto(jobs, list, expanded, list.len())
}

/// One row for each listed job.
pub open spec fn plain_rows(list: Seq<usize>) -> Seq<DisplayEntry> {
    Seq::new(list.len(), |k: int| DisplayEntry::Job(list[k]))
}

proof fn lemma_waiting_bound(jobs: Seq<JobView>, list: Seq<usize>, id: Seq<char>, n: nat)
    ensures
        waiting(jobs, list, id, n) <= n,
    decreases n,
{
    if n > 0 {
        lemma_waiting_bound(jobs, list, id, (n - 1) as nat);
    }
}

proof fn lemma_waiting_grows(jobs: Seq<JobView>, list: Seq<usize>, id: Seq<char>, m: nat, n: nat)
    requires
        m <= n,
    ensures
        waiting(jobs, list, id, m) <= waiting(jobs, list, id, n),
    decreases n,
{
    if m < n {
        lemma_waiting_grows(jobs, list, id, m, (n - 1) as nat);
    }
}

/// The waiting tasks of each array, counted.
fn count_waiting(jobs: &Vec<Job>, list: &Vec<usize>) -> (counts: StringHashMap<usize>)
    requires
        in_range(list@, job_views(jobs@)),
    ensures
        forall|id: Seq<char>|
            {
                let n = waiting(job_views(jobs@), list@, id, list@.len());
                &&& #[trigger] counts@.contains_key(id) <==> n > 0
                &&& n > 0 ==> counts@[id] == n
            },
{
    let ghost views = job_views(jobs@);
    let mut counts: StringHashMap<usize> = StringHashMap::new();
    let mut k: usize = 0;
    while k < list.len()
        invariant
            k <= list@.len(),
            views == job_views(jobs@),
            in_range(list@, views),
            forall|id: Seq<char>|
                {
                    let n = waiting(views, list@, id, k as nat);
                    &&& #[trigger] counts@.contains_key(id) <==> n > 0
                    &&& n > 0 ==> counts@[id] == n
                },
        decreases list@.len() - k,
    {
        let job = &jobs[list[k]];
        let ghost before = counts@;
        assert(views[list@[k as int] as int] == job@);
        if job.is_waiting_in_array() {
            let n: usize = match counts.get(job.array_id.as_str()) {
                Some(n) => *n,
                None => 0,
            };
            proof {
                lemma_waiting_bound(views, list@, job.array_id@, k as nat);
            }
            counts.insert(job.array_id.clone(), n + 1);
        }
        proof {
            assert forall|id: Seq<char>|
                {
                    let n = waiting(views, list@, id, (k + 1) as nat);
                    &&& #[trigger] counts@.contains_key(id) <==> n > 0
                    &&& n > 0 ==> counts@[id] == n
                } by {
                assert(before.contains_key(id) <==> waiting(views, list@, id, k as nat) > 0);
            }
        }
        k += 1;
    }
    counts
}

/// Makes the rows of the listed jobs.
pub fn group_rows(jobs: &Vec<Job>, list: &Vec<usize>, expanded: &StringHashSet) -> (rows: Vec<
    DisplayEntry,
>)
    requires
        in_range(list@, job_views(jobs@)),
    ensures
        rows@ == grouped_rows(job_views(jobs@), list@, expanded@),
{
    let ghost views = job_views(jobs@);
    let counts = count_waiting(jobs, list);
    let mut seen = StringHashSet::new();
    let mut rows: Vec<DisplayEntry> = Vec::new();
    let mut k: usize = 0;
    while k < list.len()
        invariant
            k <= list@.len(),
            views == job_views(jobs@),
            in_range(list@, views),
            forall|id: Seq<char>|
                {
                    let n = waiting(views, list@, id, list@.len());
                    &&& #[trigger] counts@.contains_key(id) <==> n > 0
                    &&& n > 0 ==> counts@[id] == n
                },
            forall|id: Seq<char>| #[trigger]
                seen@.contains(id) <==> collapsed(views, list@, expanded@, id) && waiting(
                    views,
                    list@,
                    id,
                    k as nat,
                ) > 0,
            rows@ == rows_upto(views, list@, expanded@, k as nat),
        decreases list@.len() - k,
    {
        let idx: usize = list[k];
        let job = &jobs[idx];
        let ghost seen_before = seen@;
        assert(views[list@[k as int] as int] == job@);
        let mut together: bool = false;
        let mut total: usize = 0;
        if job.is_waiting_in_array() {
            if let Some(n) = counts.get(job.array_id.as_str()) {
                total = *n;
                together = total > 1 && !expanded.contains(job.array_id.as_str());
            }
        }
        proof {
            assert(counts@.contains_key(job.array_id@) <==> waiting(
                views,
                list@,
                job.array_id@,
                list@.len(),
            ) > 0);
            assert(together == grouped(views, list@, expanded@, k as int));
            assert(seen@.contains(job.array_id@) <==> collapsed(
                views,
                list@,
                expanded@,
                job.array_id@,
            ) && waiting(views, list@, job.array_id@, k as nat) > 0);
        }
        if together {
            if seen.insert(job.array_id.clone()) {
                rows.push(DisplayEntry::CollapsedGroup { index: idx, total });
            }
        } else {
            rows.push(DisplayEntry::Job(idx));
        }
        proof {
            assert forall|id: Seq<char>| #[trigger]
                seen@.contains(id) <==> collapsed(views, list@, expanded@, id) && waiting(
                    views,
                    list@,
                    id,
                    (k + 1) as nat,
                ) > 0 by {
                assert(seen_before.contains(id) <==> collapsed(views, list@, expanded@, id)
                    && waiting(views, list@, id, k as nat) > 0);
            }
        }
        k += 1;
    }
    rows
}

/// Makes one row for each listed job.
pub fn single_rows(list: &Vec<usize>) -> (rows: Vec<DisplayEntry>)
    ensures
        rows@ == plain_rows(list@),
{
    let mut rows: Vec<DisplayEntry> = Vec::new();
    let mut k: usize = 0;
    while k < list.len()
        invariant
            k <= list@.len(),
            rows@ == plain_rows(list@.take(k as int)),
        decreases list@.len() - k,
    {
        rows.push(DisplayEntry::Job(list[k]));
        k += 1;
        assert(rows@ =~= plain_rows(list@.take(k as int)));
    }
    assert(list@.take(k as int) =~= list@);
    rows
}

// ---------------------------------------------------------------------------------------------
// Finding the row of a job
// ---------------------------------------------------------------------------------------------
/// The first place at or after `from` among the jobs of one that goes by `id`.
pub open spec fn place_of_job(jobs: Seq<JobView>, id: Seq<char>, from: int) -> Option<int>
    decreases jobs.len() - from,
{
    if from >= jobs.len() {
        None
    } else if jobs[from].id() == id {
        Some(from)
    } else {
        place_of_job(jobs, id, from + 1)
    }
}

/// Finds the first job that goes by an id.
pub fn find_job(jobs: &Vec<Job>, id: &str) -> (r: Option<usize>)
    ensures
        match r {
            Some(i) => place_of_job(job_views(jobs@), id@, 0) == Some(i as int),
            None => place_of_job(job_views(jobs@), id@, 0) is None,
        },
{
    let ghost views = job_views(jobs@);
    let mut i: usize = 0;
    while i < jobs.len()
        invariant
            i <= jobs@.len(),
            views == job_views(jobs@),
            place_of_job(views, id@, 0) == place_of_job(views, id@, i as int),
        decreases jobs@.len() - i,
    {
        assert(views[i as int] == jobs@[i as int]@);
        if same(jobs[i].id().as_str(), id) {
            return Some(i);
        }
        i += 1;
    }
    None
}

/// What is found is the first job that goes by `id`, and one is found if there is one.
pub proof fn lemma_place_of_job(jobs: Seq<JobView>, id: Seq<char>, from: int)
    requires
        0 <= from <= jobs.len(),
    ensures
        match place_of_job(jobs, id, from) {
            Some(p) => {
                &&& from <= p < jobs.len()
                &&& jobs[p].id() == id
                &&& forall|k: int| from <= k < p ==> (#[trigger] jobs[k]).id() != id
            },
            None => forall|k: int| from <= k < jobs.len() ==> (#[trigger] jobs[k]).id() != id,
        },
    decreases jobs.len() - from,
{
    if from < jobs.len() {
        lemma_place_of_job(jobs, id, from + 1);
    }
}

/// The first row at or after `from` that stands for a job that goes by `id`.
pub open spec fn row_of_job(
    jobs: Seq<JobView>,
    rows: Seq<DisplayEntry>,
    id: Seq<char>,
    from: int,
) -> Option<int>
    decreases rows.len() - from,
{
    if from >= rows.len() {
        None
    } else if rows[from].position() < jobs.len() && jobs[rows[from].position() as int].id() == id {
        Some(from)
    } else {
        row_of_job(jobs, rows, id, from + 1)
    }
}

/// The row is that of the waiting tasks of an array.
pub open spec fn is_group_of(jobs: Seq<JobView>, row: DisplayEntry, array_id: Seq<char>) -> bool {
    row is CollapsedGroup && row.position() < jobs.len() && jobs[row.position() as int].array_id
        == array_id
}

/// The first row at or after `from` that is that of the waiting tasks of an array.
pub open spec fn row_of_group(
    jobs: Seq<JobView>,
    rows: Seq<DisplayEntry>,
    array_id: Seq<char>,
    from: int,
) -> Option<int>
    decreases rows.len() - from,
{
    if from >= rows.len() {
        None
    } else if is_group_of(jobs, rows[from], array_id) {
        Some(from)
    } else {
        row_of_group(jobs, rows, array_id, from + 1)
    }
}

/// The first place at or after `from` in the list of a job that goes by `id`.
pub open spec fn place_in_list(
    jobs: Seq<JobView>,
    list: Seq<usize>,
    id: Seq<char>,
    from: int,
) -> Option<int>
    decreases list.len() - from,
{
    if from >= list.len() {
        None
    } else if jobs[list[from] as int].id() == id {
        Some(from)
    } else {
        place_in_list(jobs, list, id, from + 1)
    }
}

/// The row that shows the job that goes by `id`: the one that stands for it or, where it is drawn
/// together with others, the row of its group.
pub open spec fn row_showing(
    jobs: Seq<JobView>,
    list: Seq<usize>,
    rows: Seq<DisplayEntry>,
    id: Seq<char>,
) -> Option<int> {
    match row_of_job(jobs, rows, id, 0) {
        Some(r) => Some(r),
        None => match place_in_list(jobs, list, id, 0) {
            Some(k) => row_of_group(jobs, rows, jobs[list[k] as int].array_id, 0),
            None => None,
        },
    }
}

/// Finds the first row that stands for a job.
fn find_row_of_job(jobs: &Vec<Job>, rows: &Vec<DisplayEntry>, id: &str) -> (r: Option<usize>)
    ensures
        match r {
            Some(i) => row_of_job(job_views(jobs@), rows@, id@, 0) == Some(i as int),
            None => row_of_job(job_views(jobs@), rows@, id@, 0) is None,
        },
{
    let ghost views = job_views(jobs@);
    let mut i: usize = 0;
    while i < rows.len()
        invariant
            i <= rows@.len(),
            views == job_views(jobs@),
            row_of_job(views, rows@, id@, 0) == row_of_job(views, rows@, id@, i as int),
        decreases rows@.len() - i,
    {
        let index: usize = rows[i].job_index();
        if index < jobs.len() {
            assert(views[index as int] == jobs@[index as int]@);
            if same(jobs[index].id().as_str(), id) {
                return Some(i);
            }
        }
        i += 1;
    }
    None
}

/// Finds the row of the waiting tasks of an array.
fn find_row_of_group(jobs: &Vec<Job>, rows: &Vec<DisplayEntry>, array_id: &str) -> (r: Option<
    usize,
>)
    ensures
        match r {
            Some(i) => row_of_group(job_views(jobs@), rows@, array_id@, 0) == Some(i as int),
            None => row_of_group(job_views(jobs@), rows@, array_id@, 0) is None,
        },
{
    let ghost views = job_views(jobs@);
    let mut i: usize = 0;
    while i < rows.len()
        invariant
            i <= rows@.len(),
            views == job_views(jobs@),
            row_of_group(views, rows@, array_id@, 0) == row_of_group(
                views,
                rows@,
                array_id@,
                i as int,
            ),
        decreases rows@.len() - i,
    {
        if let DisplayEntry::CollapsedGroup { index, .. } = rows[i] {
            if index < jobs.len() {
                assert(views[index as int] == jobs@[index as int]@);
                if same(jobs[index].array_id.as_str(), array_id) {
                    return Some(i);
                }
            }
        }
        i += 1;
    }
    None
}

/// Finds the row that shows a job.
pub fn find_row(jobs: &Vec<Job>, list: &Vec<usize>, rows: &Vec<DisplayEntry>, id: &str) -> (r:
    Option<usize>)
    requires
        in_range(list@, job_views(jobs@)),
    ensures
        match r {
            Some(i) => row_showing(job_views(jobs@), list@, rows@, id@) == Some(i as int),
            None => row_showing(job_views(jobs@), list@, rows@, id@) is None,
        },
{
    if let Some(i) = find_row_of_job(jobs, rows, id) {
        return Some(i);
    }
    let ghost views = job_views(jobs@);
    let mut k: usize = 0;
    while k < list.len()
        invariant
            k <= list@.len(),
            views == job_views(jobs@),
            in_range(list@, views),
            row_of_job(views, rows@, id@, 0) is None,
            place_in_list(views, list@, id@, 0) == place_in_list(views, list@, id@, k as int),
        decreases list@.len() - k,
    {
        let job = &jobs[list[k]];
        assert(views[list@[k as int] as int] == job@);
        if same(job.id().as_str(), id) {
            return find_row_of_group(jobs, rows, job.array_id.as_str());
        }
        k += 1;
    }
    None
}

proof fn lemma_row_of_job(jobs: Seq<JobView>, rows: Seq<DisplayEntry>, id: Seq<char>, from: int)
    requires
        0 <= from <= rows.len(),
    ensures
        match row_of_job(jobs, rows, id, from) {
            Some(r) => {
                &&& from <= r < rows.len()
                &&& rows[r].position() < jobs.len()
                &&& jobs[rows[r].position() as int].id() == id
                &&& forall|k: int|
                    from <= k < r && (#[trigger] rows[k]).position() < jobs.len()
                        ==> jobs[rows[k].position() as int].id() != id
            },
            None => forall|r: int|
                from <= r < rows.len() && (#[trigger] rows[r]).position() < jobs.len()
                    ==> jobs[rows[r].position() as int].id() != id,
        },
    decreases rows.len() - from,
{
    if from < rows.len() {
        lemma_row_of_job(jobs, rows, id, from + 1);
    }
}

proof fn lemma_row_of_group(
    jobs: Seq<JobView>,
    rows: Seq<DisplayEntry>,
    array_id: Seq<char>,
    from: int,
)
    requires
        0 <= from <= rows.len(),
    ensures
        match row_of_group(jobs, rows, array_id, from) {
            Some(r) => from <= r < rows.len() && is_group_of(jobs, rows[r], array_id),
            None => forall|r: int|
                from <= r < rows.len() ==> !is_group_of(jobs, #[trigger] rows[r], array_id),
        },
    decreases rows.len() - from,
{
    if from < rows.len() {
        lemma_row_of_group(jobs, rows, array_id, from + 1);
    }
}

proof fn lemma_place_in_list(jobs: Seq<JobView>, list: Seq<usize>, id: Seq<char>, from: int)
    requires
        0 <= from <= list.len(),
    ensures
        match place_in_list(jobs, list, id, from) {
            Some(k) => from <= k < list.len() && jobs[list[k] as int].id() == id,
            None => forall|k: int|
                from <= k < list.len() ==> jobs[(#[trigger] list[k]) as int].id() != id,
        },
    decreases list.len() - from,
{
    if from < list.len() {
        lemma_place_in_list(jobs, list, id, from + 1);
    }
}

/// Where a row stands for a job that goes by `id`, the first such row is found.
pub proof fn law_own_row_is_found(
    jobs: Seq<JobView>,
    list: Seq<usize>,
    rows: Seq<DisplayEntry>,
    id: Seq<char>,
    r: int,
)
    requires
        0 <= r < rows.len(),
        rows[r].position() < jobs.len(),
        jobs[rows[r].position() as int].id() == id,
    ensures
        row_showing(jobs, list, rows, id) matches Some(found) && 0 <= found < rows.len()
            && rows[found].position() < jobs.len() && jobs[rows[found].position() as int].id()
            == id && forall|k: int|
            0 <= k < found && (#[trigger] rows[k]).position() < jobs.len()
                ==> jobs[rows[k].position() as int].id() != id,
{
    lemma_row_of_job(jobs, rows, id, 0);
}

/// Where a listed job goes by `id`, a row that shows one is found.
pub proof fn law_listed_job_is_found(
    jobs: Seq<JobView>,
    list: Seq<usize>,
    expanded: Set<Seq<char>>,
    id: Seq<char>,
    k: int,
)
    requires
        list.len() <= usize::MAX,
        in_range(list, jobs),
        0 <= k < list.len(),
        jobs[list[k] as int].id() == id,
    ensures
        row_showing(jobs, list, grouped_rows(jobs, list, expanded), id) matches Some(found) && 0
            <= found < grouped_rows(jobs, list, expanded).len() && exists|j: int|
            0 <= j < list.len() && jobs[(#[trigger] list[j]) as int].id() == id && shows(
                grouped_rows(jobs, list, expanded)[found],
                jobs,
                list,
                j,
            ),
{
    let rows = grouped_rows(jobs, list, expanded);
    lemma_row_of_job(jobs, rows, id, 0);
    match row_of_job(jobs, rows, id, 0) {
        Some(r) => {
            law_rows_are_true(jobs, list, expanded, r);
            let j = choose|j: int| 0 <= j < list.len() && list[j] == rows[r].position();
            assert(list[j] == rows[r].position());
            assert(shows(rows[r], jobs, list, j));
        },
        None => {
            lemma_place_in_list(jobs, list, id, 0);
            assert(jobs[list[k] as int].id() == id);
            let j = place_in_list(jobs, list, id, 0)->0;
            let array_id = jobs[list[j] as int].array_id;
            law_every_listed_job_is_shown(jobs, list, expanded, j);
            let r = choose|r: int| 0 <= r < rows.len() && shows(#[trigger] rows[r], jobs, list, j);
            assert(list[j] < jobs.len());
            law_rows_are_true(jobs, list, expanded, r);
            let m = choose|m: int| 0 <= m < list.len() && list[m] == rows[r].position();
            assert(list[m] < jobs.len());
            assert(rows[r] is CollapsedGroup);
            assert(is_group_of(jobs, rows[r], array_id));
            lemma_row_of_group(jobs, rows, array_id, 0);
            let found = row_of_group(jobs, rows, array_id, 0)->0;
            law_rows_are_true(jobs, list, expanded, found);
            assert(shows(rows[found], jobs, list, j));
        },
    }
}

/// Where no job goes by `id`, no row is found.
pub proof fn law_missing_job_is_not_found(
    jobs: Seq<JobView>,
    list: Seq<usize>,
    rows: Seq<DisplayEntry>,
    id: Seq<char>,
)
    requires
        in_range(list, jobs),
        forall|p: int| 0 <= p < jobs.len() ==> (#[trigger] jobs[p]).id() != id,
    ensures
        row_showing(jobs, list, rows, id) is None,
{
    lemma_row_of_job(jobs, rows, id, 0);
    lemma_place_in_list(jobs, list, id, 0);
}

/// Where no listed job goes by `id`, no row is found.
pub proof fn law_unlisted_job_is_not_found(
    jobs: Seq<JobView>,
    list: Seq<usize>,
    expanded: Set<Seq<char>>,
    id: Seq<char>,
)
    requires
        list.len() <= usize::MAX,
        in_range(list, jobs),
        forall|k: int| 0 <= k < list.len() ==> jobs[(#[trigger] list[k]) as int].id() != id,
    ensures
        row_showing(jobs, list, grouped_rows(jobs, list, expanded), id) is None,
{
    let rows = grouped_rows(jobs, list, expanded);
    lemma_row_of_job(jobs, rows, id, 0);
    lemma_place_in_list(jobs, list, id, 0);
    if let Some(r) = row_of_job(jobs, rows, id, 0) {
        let k = lemma_row_origin(jobs, list, expanded, list.len(), r);
        assert(jobs[list[k] as int].id() != id);
    }
}

/// There are no more rows than listed jobs.
pub proof fn lemma_rows_bound(
    jobs: Seq<JobView>,
    list: Seq<usize>,
    expanded: Set<Seq<char>>,
    n: nat,
)
    ensures
        rows_upto(jobs, list, expanded, n).len() <= n,
    decreases n,
{
    if n > 0 {
        lemma_rows_bound(jobs, list, expanded, (n - 1) as nat);
    }
}

// ---------------------------------------------------------------------------------------------
// What holds of the rows
// ---------------------------------------------------------------------------------------------
/// How many jobs the rows stand for.
pub open spec fn total_weight(rows: Seq<DisplayEntry>) -> nat
    decreases rows.len(),
{
    if rows.len() == 0 {
        0
    } else {
        total_weight(rows.drop_last()) + rows.last().weight()
    }
}

/// Rows of single jobs stand for as many jobs as there are rows.
pub proof fn lemma_plain_rows_weigh_one(list: Seq<usize>)
    ensures
        total_weight(plain_rows(list)) == list.len(),
    decreases list.len(),
{
    if list.len() > 0 {
        lemma_plain_rows_weigh_one(list.drop_last());
        assert(plain_rows(list).drop_last() =~= plain_rows(list.drop_last()));
    }
}

/// What the `k`-th listed job adds to the weight of the rows, when a group counts those of its
/// tasks that are among the first `m` listed jobs.
spec fn share(
    jobs: Seq<JobView>,
    list: Seq<usize>,
    expanded: Set<Seq<char>>,
    k: int,
    m: nat,
) -> nat {
    let id = jobs[list[k] as int].array_id;
    if !grouped(jobs, list, expanded, k) {
        1
    } else if waiting(jobs, list, id, k as nat) == 0 {
        waiting(jobs, list, id, m)
    } else {
        0
    }
}

spec fn shares(
    jobs: Seq<JobView>,
    list: Seq<usize>,
    expanded: Set<Seq<char>>,
    n: nat,
    m: nat,
) -> nat
    decreases n,
{
    if n == 0 {
        0
    } else {
        shares(jobs, list, expanded, (n - 1) as nat, m) + share(jobs, list, expanded, n - 1, m)
    }
}

proof fn lemma_weight_is_shares(
    jobs: Seq<JobView>,
    list: Seq<usize>,
    expanded: Set<Seq<char>>,
    n: nat,
)
    requires
        n <= list.len() <= usize::MAX,
    ensures
        total_weight(rows_upto(jobs, list, expanded, n)) == shares(
            jobs,
            list,
            expanded,
            n,
            list.len(),
        ),
    decreases n,
{
    if n > 0 {
        let m = (n - 1) as nat;
        lemma_weight_is_shares(jobs, list, expanded, m);
        lemma_waiting_bound(jobs, list, jobs[list[n - 1] as int].array_id, list.len());
        match row_at(jobs, list, expanded, n - 1) {
            Some(row) => {
                assert(rows_upto(jobs, list, expanded, n).drop_last() =~= rows_upto(
                    jobs,
                    list,
                    expanded,
                    m,
                ));
            },
            None => {},
        }
    }
}

/// Counting one more listed job adds one to the shares of those before it exactly where it joins
/// a group that has begun.
proof fn lemma_shares_step(
    jobs: Seq<JobView>,
    list: Seq<usize>,
    expanded: Set<Seq<char>>,
    n: nat,
    m: nat,
)
    requires
        n <= m < list.len(),
    ensures
        shares(jobs, list, expanded, n, m + 1) == shares(jobs, list, expanded, n, m) + (if grouped(
            jobs,
            list,
            expanded,
            m as int,
        ) && waiting(jobs, list, jobs[list[m as int] as int].array_id, n) > 0 {
            1nat
        } else {
            0nat
        }),
    decreases n,
{
    if n > 0 {
        lemma_shares_step(jobs, list, expanded, (n - 1) as nat, m);
    }
}

proof fn lemma_shares_exact(
    jobs: Seq<JobView>,
    list: Seq<usize>,
    expanded: Set<Seq<char>>,
    n: nat,
)
    requires
        n <= list.len(),
    ensures
        shares(jobs, list, expanded, n, n) == n,
    decreases n,
{
    if n > 0 {
        lemma_shares_exact(jobs, list, expanded, (n - 1) as nat);
        lemma_shares_step(jobs, list, expanded, (n - 1) as nat, (n - 1) as nat);
    }
}

/// The rows account for every listed job, each of them once: a row of a single job stands for
/// one, the row of a group for as many as it says.
pub proof fn law_rows_account_for_every_job(
    jobs: Seq<JobView>,
    list: Seq<usize>,
    expanded: Set<Seq<char>>,
)
    requires
        list.len() <= usize::MAX,
    ensures
        total_weight(grouped_rows(jobs, list, expanded)) == list.len(),
{
    lemma_weight_is_shares(jobs, list, expanded, list.len());
    lemma_shares_exact(jobs, list, expanded, list.len());
}

/// The listed job that the `r`-th row comes from.
pub proof fn lemma_row_origin(
    jobs: Seq<JobView>,
    list: Seq<usize>,
    expanded: Set<Seq<char>>,
    n: nat,
    r: int,
) -> (k: int)
    requires
        0 <= r < rows_upto(jobs, list, expanded, n).len(),
    ensures
        0 <= k < n,
        row_at(jobs, list, expanded, k) == Some(rows_upto(jobs, list, expanded, n)[r]),
        rows_upto(jobs, list, expanded, k as nat).len() == r,
    decreases n,
{
    let m = (n - 1) as nat;
    let before = rows_upto(jobs, list, expanded, m);
    if r < before.len() {
        lemma_row_origin(jobs, list, expanded, m, r)
    } else {
        n - 1
    }
}

/// The row of the `k`-th listed job stands among the rows of the first `n`.
proof fn lemma_row_kept(
    jobs: Seq<JobView>,
    list: Seq<usize>,
    expanded: Set<Seq<char>>,
    n: nat,
    k: int,
)
    requires
        0 <= k < n,
        row_at(jobs, list, expanded, k) is Some,
    ensures
        rows_upto(jobs, list, expanded, k as nat).len() < rows_upto(jobs, list, expanded, n).len(),
        rows_upto(jobs, list, expanded, n)[rows_upto(
            jobs,
            list,
            expanded,
            k as nat,
        ).len() as int] == row_at(jobs, list, expanded, k)->0,
    decreases n,
{
    if k < n - 1 {
        lemma_row_kept(jobs, list, expanded, (n - 1) as nat, k);
    }
}

/// The first listed job that is a waiting task of the array `id`.
proof fn lemma_first_waiting(jobs: Seq<JobView>, list: Seq<usize>, id: Seq<char>, n: nat) -> (k:
    int)
    requires
        waiting(jobs, list, id, n) > 0,
    ensures
        0 <= k < n,
        waits_for(jobs, list, id, k),
        waiting(jobs, list, id, k as nat) == 0,
    decreases n,
{
    if waiting(jobs, list, id, (n - 1) as nat) > 0 {
        lemma_first_waiting(jobs, list, id, (n - 1) as nat)
    } else {
        n - 1
    }
}

/// A row shows the `k`-th listed job: on its own, or in the group of its array.
pub open spec fn shows(row: DisplayEntry, jobs: Seq<JobView>, list: Seq<usize>, k: int) -> bool {
    match row {
        DisplayEntry::Job(i) => i == list[k],
        DisplayEntry::CollapsedGroup { index, total } => {
            &&& jobs[list[k] as int].waits_in_array()
            &&& jobs[index as int].waits_in_array()
            &&& jobs[index as int].array_id == jobs[list[k] as int].array_id
        },
    }
}

/// Every listed job is shown by some row.
pub proof fn law_every_listed_job_is_shown(
    jobs: Seq<JobView>,
    list: Seq<usize>,
    expanded: Set<Seq<char>>,
    k: int,
)
    requires
        0 <= k < list.len(),
    ensures
        exists|r: int|
            0 <= r < grouped_rows(jobs, list, expanded).len() && shows(
                #[trigger] grouped_rows(jobs, list, expanded)[r],
                jobs,
                list,
                k,
            ),
{
    let id = jobs[list[k] as int].array_id;
    let rows = grouped_rows(jobs, list, expanded);
    if grouped(jobs, list, expanded, k) {
        let first = lemma_first_waiting(jobs, list, id, list.len());
        lemma_row_kept(jobs, list, expanded, list.len(), first);
        let r = rows_upto(jobs, list, expanded, first as nat).len() as int;
        assert(shows(rows[r], jobs, list, k));
    } else {
        lemma_row_kept(jobs, list, expanded, list.len(), k);
        let r = rows_upto(jobs, list, expanded, k as nat).len() as int;
        assert(shows(rows[r], jobs, list, k));
    }
}

/// Every row stands for listed jobs: its position is in the list, and the row of a group tells
/// truly how many waiting tasks of its array are listed, of which there are at least two.
pub proof fn law_rows_are_true(
    jobs: Seq<JobView>,
    list: Seq<usize>,
    expanded: Set<Seq<char>>,
    r: int,
)
    requires
        list.len() <= usize::MAX,
        0 <= r < grouped_rows(jobs, list, expanded).len(),
    ensures
        list.contains(grouped_rows(jobs, list, expanded)[r].position()),
        grouped_rows(jobs, list, expanded)[r] matches DisplayEntry::CollapsedGroup { index, total }
            ==> {
            &&& jobs[index as int].waits_in_array()
            &&& !expanded.contains(jobs[index as int].array_id)
            &&& total == waiting(jobs, list, jobs[index as int].array_id, list.len())
            &&& total > 1
        },
{
    let k = lemma_row_origin(jobs, list, expanded, list.len(), r);
    lemma_waiting_bound(jobs, list, jobs[list[k] as int].array_id, list.len());
    assert(list[k] == grouped_rows(jobs, list, expanded)[r].position());
}

/// A listed job that is not drawn together with others has a row of its own, and so has every
/// job that does not wait in an array.
pub proof fn law_other_jobs_have_their_own_rows(
    jobs: Seq<JobView>,
    list: Seq<usize>,
    expanded: Set<Seq<char>>,
    k: int,
)
    requires
        0 <= k < list.len(),
        !grouped(jobs, list, expanded, k) || !jobs[list[k] as int].waits_in_array(),
    ensures
        grouped_rows(jobs, list, expanded).contains(DisplayEntry::Job(list[k])),
{
    lemma_row_kept(jobs, list, expanded, list.len(), k);
    let r = rows_upto(jobs, list, expanded, k as nat).len() as int;
    assert(grouped_rows(jobs, list, expanded)[r] == DisplayEntry::Job(list[k]));
}

pub proof fn lemma_rows_grow(
    jobs: Seq<JobView>,
    list: Seq<usize>,
    expanded: Set<Seq<char>>,
    m: nat,
    n: nat,
)
    requires
        m <= n,
    ensures
        rows_upto(jobs, list, expanded, m).len() <= rows_upto(jobs, list, expanded, n).len(),
    decreases n,
{
    if m < n {
        lemma_rows_grow(jobs, list, expanded, m, (n - 1) as nat);
    }
}

/// No two rows stand for the same job.
pub proof fn law_rows_stand_for_different_jobs(
    jobs: Seq<JobView>,
    list: Seq<usize>,
    expanded: Set<Seq<char>>,
    r1: int,
    r2: int,
)
    requires
        forall|k: int, l: int| 0 <= k < l < list.len() ==> list[k] != list[l],
        0 <= r1 < r2 < grouped_rows(jobs, list, expanded).len(),
    ensures
        grouped_rows(jobs, list, expanded)[r1].position() != grouped_rows(
            jobs,
            list,
            expanded,
        )[r2].position(),
{
    let k1 = lemma_row_origin(jobs, list, expanded, list.len(), r1);
    let k2 = lemma_row_origin(jobs, list, expanded, list.len(), r2);
    if k2 <= k1 {
        lemma_rows_grow(jobs, list, expanded, k2 as nat, k1 as nat);
    }
    assert(list[k1] != list[k2]);
}

/// Two rows of groups are of different arrays.
pub proof fn law_each_group_has_one_row(
    jobs: Seq<JobView>,
    list: Seq<usize>,
    expanded: Set<Seq<char>>,
    r1: int,
    r2: int,
)
    requires
        0 <= r1 < r2 < grouped_rows(jobs, list, expanded).len(),
        grouped_rows(jobs, list, expanded)[r1] is CollapsedGroup,
        grouped_rows(jobs, list, expanded)[r2] is CollapsedGroup,
    ensures
        jobs[grouped_rows(jobs, list, expanded)[r1].position() as int].array_id
            != jobs[grouped_rows(jobs, list, expanded)[r2].position() as int].array_id,
{
    let k1 = lemma_row_origin(jobs, list, expanded, list.len(), r1);
    let k2 = lemma_row_origin(jobs, list, expanded, list.len(), r2);
    if k2 <= k1 {
        lemma_rows_grow(jobs, list, expanded, k2 as nat, k1 as nat);
    }
    let id = jobs[list[k1] as int].array_id;
    assert(waits_for(jobs, list, id, k1));
    assert(waiting(jobs, list, id, (k1 + 1) as nat) > 0);
    lemma_waiting_grows(jobs, list, id, (k1 + 1) as nat, k2 as nat);
}

/// Where no jobs are drawn together, each listed job has a row of its own.
pub proof fn law_lone_jobs_have_single_rows(
    jobs: Seq<JobView>,
    list: Seq<usize>,
    expanded: Set<Seq<char>>,
)
    requires
        forall|k: int| 0 <= k < list.len() ==> !#[trigger] grouped(jobs, list, expanded, k),
    ensures
        grouped_rows(jobs, list, expanded) == plain_rows(list),
{
    lemma_single_rows(jobs, list, expanded, list.len());
    assert(list.take(list.len() as int) =~= list);
}

proof fn lemma_single_rows(
    jobs: Seq<JobView>,
    list: Seq<usize>,
    expanded: Set<Seq<char>>,
    n: nat,
)
    requires
        n <= list.len(),
        forall|k: int| 0 <= k < list.len() ==> !#[trigger] grouped(jobs, list, expanded, k),
    ensures
        rows_upto(jobs, list, expanded, n) == plain_rows(list.take(n as int)),
    decreases n,
{
    if n > 0 {
        lemma_single_rows(jobs, list, expanded, (n - 1) as nat);
        assert(!grouped(jobs, list, expanded, n - 1));
    }
    assert(rows_upto(jobs, list, expanded, n) =~= plain_rows(list.take(n as int)));
}

/// Expanding an array leaves the rows before its first waiting task as they were.
proof fn lemma_rows_before_first(
    jobs: Seq<JobView>,
    list: Seq<usize>,
    expanded: Set<Seq<char>>,
    id: Seq<char>,
    n: nat,
)
    requires
        n <= list.len(),
        waiting(jobs, list, id, n) == 0,
    ensures
        rows_upto(jobs, list, expanded.insert(id), n) == rows_upto(jobs, list, expanded, n),
    decreases n,
{
    if n > 0 {
        lemma_rows_before_first(jobs, list, expanded, id, (n - 1) as nat);
        assert(!waits_for(jobs, list, id, n - 1));
    }
}

/// Expanding an array that was drawn together gives each of its waiting tasks a row.
proof fn lemma_expanded_rows(
    jobs: Seq<JobView>,
    list: Seq<usize>,
    expanded: Set<Seq<char>>,
    id: Seq<char>,
    n: nat,
)
    requires
        n <= list.len(),
        collapsed(jobs, list, expanded, id),
    ensures
        rows_upto(jobs, list, expanded.insert(id), n).len() == rows_upto(
            jobs,
            list,
            expanded,
            n,
        ).len() + (if waiting(jobs, list, id, n) > 0 {
            waiting(jobs, list, id, n) - 1
        } else {
            0
        }),
    decreases n,
{
    if n > 0 {
        lemma_expanded_rows(jobs, list, expanded, id, (n - 1) as nat);
        if !waits_for(jobs, list, id, n - 1) {
            assert(grouped(jobs, list, expanded.insert(id), n - 1) == grouped(
                jobs,
                list,
                expanded,
                n - 1,
            ));
        }
    }
}

/// Expanding the array of a group puts its first task, on its own, into the row where the group
/// was, and adds a row for each of the others.
pub proof fn law_expanding_keeps_the_place(
    jobs: Seq<JobView>,
    list: Seq<usize>,
    expanded: Set<Seq<char>>,
    r: int,
)
    requires
        list.len() <= usize::MAX,
        0 <= r < grouped_rows(jobs, list, expanded).len(),
        grouped_rows(jobs, list, expanded)[r] is CollapsedGroup,
    ensures
        ({
            let before = grouped_rows(jobs, list, expanded);
            let index = before[r].position();
            let after = grouped_rows(
                jobs,
                list,
                expanded.insert(jobs[index as int].array_id),
            );
            &&& r < after.len()
            &&& after[r] == DisplayEntry::Job(index)
            &&& after.len() == before.len() + before[r].weight() - 1
        }),
{
    let k = lemma_row_origin(jobs, list, expanded, list.len(), r);
    let id = jobs[list[k] as int].array_id;
    lemma_rows_before_first(jobs, list, expanded, id, k as nat);
    assert(!grouped(jobs, list, expanded.insert(id), k));
    lemma_row_kept(jobs, list, expanded.insert(id), list.len(), k);
    law_rows_are_true(jobs, list, expanded, r);
    lemma_expanded_rows(jobs, list, expanded, id, list.len());
}

// ---------------------------------------------------------------------------------------------
// The other way round
// ---------------------------------------------------------------------------------------------
/// How many of the first `n` listed jobs have a row.
spec fn firsts(
    jobs: Seq<JobView>,
    list: Seq<usize>,
    expanded: Set<Seq<char>>,
    n: nat,
) -> nat
    decreases n,
{
    if n == 0 {
        0
    } else {
        firsts(jobs, list, expanded, (n - 1) as nat) + (if row_at(
            jobs,
            list,
            expanded,
            n - 1,
        ) is Some {
            1nat
        } else {
            0nat
        })
    }
}

/// The `k`-th listed job is on its own, or the last of its group among the first `m`.
spec fn is_last(
    jobs: Seq<JobView>,
    list: Seq<usize>,
    expanded: Set<Seq<char>>,
    k: int,
    m: nat,
) -> bool {
    let id = jobs[list[k] as int].array_id;
    !grouped(jobs, list, expanded, k) || waiting(jobs, list, id, m) == waiting(
        jobs,
        list,
        id,
        (k + 1) as nat,
    )
}

/// How many of the first `n` listed jobs are on their own, or the last of their group among the
/// first `m`.
spec fn lasts(
    jobs: Seq<JobView>,
    list: Seq<usize>,
    expanded: Set<Seq<char>>,
    n: nat,
    m: nat,
) -> nat
    decreases n,
{
    if n == 0 {
        0
    } else {
        lasts(jobs, list, expanded, (n - 1) as nat, m) + (if is_last(
            jobs,
            list,
            expanded,
            n - 1,
            m,
        ) {
            1nat
        } else {
            0nat
        })
    }
}

proof fn lemma_rows_are_firsts(
    jobs: Seq<JobView>,
    list: Seq<usize>,
    expanded: Set<Seq<char>>,
    n: nat,
)
    ensures
        rows_upto(jobs, list, expanded, n).len() == firsts(jobs, list, expanded, n),
    decreases n,
{
    if n > 0 {
        lemma_rows_are_firsts(jobs, list, expanded, (n - 1) as nat);
    }
}

/// One more listed job takes from the one that was the last of its group that it is the last.
proof fn lemma_lasts_step(
    jobs: Seq<JobView>,
    list: Seq<usize>,
    expanded: Set<Seq<char>>,
    n: nat,
    m: nat,
)
    requires
        n <= m < list.len(),
    ensures
        ({
            let id = jobs[list[m as int] as int].array_id;
            lasts(jobs, list, expanded, n, m) == lasts(jobs, list, expanded, n, m + 1) + (
            if grouped(jobs, list, expanded, m as int) && waiting(jobs, list, id, n) > 0
                && waiting(jobs, list, id, n) == waiting(jobs, list, id, m) {
                1nat
            } else {
                0nat
            })
        }),
    decreases n,
{
    if n > 0 {
        let id = jobs[list[m as int] as int].array_id;
        lemma_lasts_step(jobs, list, expanded, (n - 1) as nat, m);
        lemma_waiting_grows(jobs, list, id, n, m);
        lemma_waiting_grows(jobs, list, id, (n - 1) as nat, m);
        lemma_waiting_grows(jobs, list, jobs[list[n - 1] as int].array_id, n, m);
    }
}

/// As many groups have a first task as have a last.
proof fn lemma_firsts_are_lasts(
    jobs: Seq<JobView>,
    list: Seq<usize>,
    expanded: Set<Seq<char>>,
    n: nat,
)
    requires
        n <= list.len(),
    ensures
        firsts(jobs, list, expanded, n) == lasts(jobs, list, expanded, n, n),
    decreases n,
{
    if n > 0 {
        let m = (n - 1) as nat;
        lemma_firsts_are_lasts(jobs, list, expanded, m);
        lemma_lasts_step(jobs, list, expanded, m, m);
    }
}

pub proof fn lemma_waiting_reversed(jobs: Seq<JobView>, list: Seq<usize>, id: Seq<char>, n: nat)
    requires
        n <= list.len(),
    ensures
        waiting(jobs, list.reverse(), id, n) + waiting(jobs, list, id, (list.len() - n) as nat)
            == waiting(jobs, list, id, list.len()),
    decreases n,
{
    if n > 0 {
        lemma_waiting_reversed(jobs, list, id, (n - 1) as nat);
        assert(list.reverse()[n - 1] == list[list.len() - n]);
    }
}

/// The rows of a list that is turned round are the last of each group from the far end.
proof fn lemma_firsts_reversed(
    jobs: Seq<JobView>,
    list: Seq<usize>,
    expanded: Set<Seq<char>>,
    n: nat,
)
    requires
        n <= list.len(),
    ensures
        firsts(jobs, list.reverse(), expanded, n) + lasts(
            jobs,
            list,
            expanded,
            (list.len() - n) as nat,
            list.len(),
        ) == lasts(jobs, list, expanded, list.len(), list.len()),
    decreases n,
{
    if n > 0 {
        let k = list.len() - n;
        let id = jobs[list[k] as int].array_id;
        lemma_firsts_reversed(jobs, list, expanded, (n - 1) as nat);
        assert(list.reverse()[n - 1] == list[k]);
        lemma_waiting_reversed(jobs, list, id, list.len());
        lemma_waiting_reversed(jobs, list, id, (n - 1) as nat);
        assert(row_at(jobs, list.reverse(), expanded, n - 1) is Some <==> is_last(
            jobs,
            list,
            expanded,
            k,
            list.len(),
        ));
    }
}

/// Turning the order round keeps the number of rows. Rows of single jobs are then the same rows
/// from the last to the first.
pub proof fn law_reversing_keeps_the_number_of_rows(
    jobs: Seq<JobView>,
    query: Seq<char>,
    expanded: Set<Seq<char>>,
)
    ensures
        grouped_rows(jobs, listed(jobs, query, true), expanded).len() == grouped_rows(
            jobs,
            listed(jobs, query, false),
            expanded,
        ).len(),
        plain_rows(listed(jobs, query, true)) == plain_rows(
            listed(jobs, query, false),
        ).reverse(),
{
    let list = listed(jobs, query, false);
    lemma_rows_are_firsts(jobs, list, expanded, list.len());
    lemma_rows_are_firsts(jobs, list.reverse(), expanded, list.len());
    lemma_firsts_are_lasts(jobs, list, expanded, list.len());
    lemma_firsts_reversed(jobs, list, expanded, list.len());
    assert(plain_rows(list.reverse()) =~= plain_rows(list).reverse());
}

} // verus!
