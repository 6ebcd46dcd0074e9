//! What the lists hold, told on the fields of the jobs.

use vstd::prelude::*;

use crate::app::{AppView, SelectedTab};
use crate::display::{
    grouped, grouped_rows, law_every_listed_job_is_shown, law_list_is_exact,
    law_other_jobs_have_their_own_rows, law_rows_are_true, lemma_row_origin, lemma_rows_grow,
    lemma_waiting_reversed, listed, matching_upto, name_matches, plain_rows, shows, waiting,
    waits_for, DisplayEntry,
};
use crate::job::{Job, JobView};
use crate::list_state::ListState;
use crate::text::{contains, lowercase};
use crate::text_laws::{law_held_text_has_text_around, law_holding_is_having_text_around};

verus! {

/// The id of a task of an array is the id of the array, an underscore and the number of the task;
/// that of any other job is its own.
pub proof fn law_id_of_a_job(job: JobView)
    ensures
        job.array_step is None ==> job.id() == job.job_id,
        job.array_step matches Some(step) ==> job.id() == job.array_id.push('_') + step,
{
    reveal_strlit("_");
    if let Some(step) = job.array_step {
        assert(job.id() =~= job.array_id.push('_') + step);
    }
}

/// What is said of a job is said of its own texts.
pub proof fn law_a_job_is_its_texts(job: Job)
    ensures
        job@.job_id == job.job_id@ && job@.array_id == job.array_id@,
        job@.name == job.name@ && job@.state == job.state@,
        job@.state_compact == job.state_compact@ && job@.user == job.user@,
        job@.time == job.time@ && job@.time_limit == job.time_limit@,
        job@.start_time == job.start_time@ && job@.tres == job.tres@,
        job@.partition == job.partition@ && job@.qos == job.qos@,
        job@.nodelist == job.nodelist@ && job@.command == job.command@,
        job.array_step matches Some(t) ==> job@.array_step == Some(t@),
        job.array_step is None ==> job@.array_step is None,
        job.reason matches Some(t) ==> job@.reason == Some(t@),
        job.reason is None ==> job@.reason is None,
        job.stdout matches Some(t) ==> job@.stdout == Some(t@),
        job.stdout is None ==> job@.stdout is None,
        job.stderr matches Some(t) ==> job@.stderr == Some(t@),
        job.stderr is None ==> job@.stderr is None,
{
}

/// The lower-case form of the query stands in that of the name, or nothing is searched for.
pub open spec fn found_in(name: Seq<char>, query: Seq<char>) -> bool {
    query.len() == 0 || exists|before: Seq<char>, behind: Seq<char>|
        lowercase(name) == #[trigger] (before + lowercase(query) + behind)
}

/// A name is found where it matches the search.
pub proof fn lemma_found(name: Seq<char>, query: Seq<char>)
    ensures
        found_in(name, query) == name_matches(name, query),
{
    if query.len() > 0 {
        if contains(lowercase(name), lowercase(query)) {
            let (a, b) = law_held_text_has_text_around(lowercase(name), lowercase(query));
            assert(lowercase(name) == a + lowercase(query) + b);
        }
        if found_in(name, query) {
            let (a, b) = choose|a: Seq<char>, b: Seq<char>|
                lowercase(name) == #[trigger] (a + lowercase(query) + b);
            law_holding_is_having_text_around(a, lowercase(query), b);
        }
    }
}

/// How many of the first `n` jobs are found by the search, have the state `PENDING`, and are tasks
/// of the array.
pub open spec fn pending_found(
    jobs: Seq<JobView>,
    query: Seq<char>,
    array_id: Seq<char>,
    n: nat,
) -> nat
    decreases n,
{
    if n == 0 {
        0
    } else {
        let job = jobs[n - 1];
        pending_found(jobs, query, array_id, (n - 1) as nat) + if found_in(job.name, query)
            && job.array_step is Some && job.state == "PENDING"@ && job.array_id == array_id {
            1nat
        } else {
            0nat
        }
    }
}

proof fn lemma_waiting_in_prefix(
    jobs: Seq<JobView>,
    list: Seq<usize>,
    x: usize,
    id: Seq<char>,
    n: nat,
)
    requires
        n <= list.len(),
    ensures
        waiting(jobs, list.push(x), id, n) == waiting(jobs, list, id, n),
    decreases n,
{
    if n > 0 {
        lemma_waiting_in_prefix(jobs, list, x, id, (n - 1) as nat);
        assert(list.push(x)[n - 1] == list[n - 1]);
    }
}

proof fn lemma_pending_upto(jobs: Seq<JobView>, query: Seq<char>, id: Seq<char>, n: nat)
    requires
        n <= jobs.len() <= usize::MAX,
    ensures
        ({
            let list = matching_upto(jobs, query, n);
            waiting(jobs, list, id, list.len()) == pending_found(jobs, query, id, n)
        }),
    decreases n,
{
    if n > 0 {
        let m = (n - 1) as nat;
        let before = matching_upto(jobs, query, m);
        lemma_pending_upto(jobs, query, id, m);
        lemma_found(jobs[n - 1].name, query);
        if name_matches(jobs[n - 1].name, query) {
            let list = before.push(m as usize);
            lemma_waiting_in_prefix(jobs, before, m as usize, id, before.len());
            assert(list[before.len() as int] == m);
        }
    }
}

/// The number of waiting tasks in the list is that of the pending tasks found.
proof fn lemma_pending(jobs: Seq<JobView>, query: Seq<char>, reversed: bool, id: Seq<char>)
    requires
        jobs.len() <= usize::MAX,
    ensures
        ({
            let list = listed(jobs, query, reversed);
            waiting(jobs, list, id, list.len()) == pending_found(jobs, query, id, jobs.len())
        }),
{
    let ascending = matching_upto(jobs, query, jobs.len());
    lemma_pending_upto(jobs, query, id, jobs.len());
    lemma_waiting_reversed(jobs, ascending, id, ascending.len());
}

proof fn lemma_none_waiting(
    jobs: Seq<JobView>,
    list: Seq<usize>,
    id: Seq<char>,
    n: nat,
    j: int,
)
    requires
        waiting(jobs, list, id, n) == 0,
        0 <= j < n,
    ensures
        !waits_for(jobs, list, id, j),
    decreases n,
{
    if j < n - 1 {
        lemma_none_waiting(jobs, list, id, (n - 1) as nat, j);
    }
}

/// The rows of the jobs are in the order of the jobs, or in the other order.
proof fn lemma_rows_in_order(
    jobs: Seq<JobView>,
    query: Seq<char>,
    reversed: bool,
    expanded: Set<Seq<char>>,
    r1: int,
    r2: int,
)
    requires
        jobs.len() <= usize::MAX,
        0 <= r1 < r2 < grouped_rows(jobs, listed(jobs, query, reversed), expanded).len(),
    ensures
        ({
            let rows = grouped_rows(jobs, listed(jobs, query, reversed), expanded);
            if reversed {
                rows[r1].position() > rows[r2].position()
            } else {
                rows[r1].position() < rows[r2].position()
            }
        }),
{
    let list = listed(jobs, query, reversed);
    law_list_is_exact(jobs, query, reversed);
    let k1 = lemma_row_origin(jobs, list, expanded, list.len(), r1);
    let k2 = lemma_row_origin(jobs, list, expanded, list.len(), r2);
    if k2 <= k1 {
        lemma_rows_grow(jobs, list, expanded, k2 as nat, k1 as nat);
    }
}

/// On the tab of jobs a job has a row of its own exactly where the search finds it and it is not
/// one of several pending tasks of an array that is not expanded.
pub proof fn law_which_jobs_have_their_own_row(s: AppView, p: int)
    requires
        s.selected_tab == SelectedTab::Jobs,
        s.jobs.len() <= usize::MAX,
        0 <= p < s.jobs.len(),
    ensures
        s.recomputed().filtered_indices.contains(DisplayEntry::Job(p as usize)) <==> found_in(
            s.jobs[p].name,
            s.search_query,
        ) && (s.jobs[p].array_step is None || s.jobs[p].state != "PENDING"@
            || s.expanded_arrays.contains(s.jobs[p].array_id) || pending_found(
            s.jobs,
            s.search_query,
            s.jobs[p].array_id,
            s.jobs.len(),
        ) <= 1),
{
    let list = listed(s.jobs, s.search_query, s.jobs_reversed);
    let rows = grouped_rows(s.jobs, list, s.expanded_arrays);
    law_list_is_exact(s.jobs, s.search_query, s.jobs_reversed);
    lemma_found(s.jobs[p].name, s.search_query);
    lemma_pending(s.jobs, s.search_query, s.jobs_reversed, s.jobs[p].array_id);
    assert(s.recomputed().filtered_indices == rows);
    assert(list.contains(p as usize) <==> name_matches(s.jobs[p].name, s.search_query));
    if rows.contains(DisplayEntry::Job(p as usize)) {
        let r = choose|r: int| 0 <= r < rows.len() && rows[r] == DisplayEntry::Job(p as usize);
        let k = lemma_row_origin(s.jobs, list, s.expanded_arrays, list.len(), r);
        assert(list[k] == p as usize);
        assert(list.contains(p as usize));
        assert(!grouped(s.jobs, list, s.expanded_arrays, k));
    }
    if list.contains(p as usize) {
        let k = choose|k: int| 0 <= k < list.len() && list[k] == p as usize;
        if !grouped(s.jobs, list, s.expanded_arrays, k) {
            law_other_jobs_have_their_own_rows(s.jobs, list, s.expanded_arrays, k);
        }
    }
}

/// The row of a group stands for pending tasks of an array that is not expanded. It tells how many
/// of them the search finds, which are at least two, and stands where the first of them in the
/// order of the list would.
pub proof fn law_what_the_row_of_a_group_says(s: AppView, r: int, p: int)
    requires
        s.selected_tab == SelectedTab::Jobs,
        s.jobs.len() <= usize::MAX,
        0 <= r < s.recomputed().filtered_indices.len(),
        s.recomputed().filtered_indices[r] is CollapsedGroup,
        0 <= p < s.jobs.len(),
    ensures
        s.recomputed().filtered_indices[r] matches DisplayEntry::CollapsedGroup { index, total }
            && {
            let first = s.jobs[index as int];
            let job = s.jobs[p];
            &&& index < s.jobs.len()
            &&& found_in(first.name, s.search_query)
            &&& first.array_step is Some && first.state == "PENDING"@
            &&& !s.expanded_arrays.contains(first.array_id)
            &&& total == pending_found(s.jobs, s.search_query, first.array_id, s.jobs.len())
            &&& total >= 2
            &&& (found_in(job.name, s.search_query) && job.array_step is Some && job.state
                == "PENDING"@ && job.array_id == first.array_id) ==> if s.jobs_reversed {
                p <= index
            } else {
                index <= p
            }
        },
{
    let list = listed(s.jobs, s.search_query, s.jobs_reversed);
    let rows = grouped_rows(s.jobs, list, s.expanded_arrays);
    law_list_is_exact(s.jobs, s.search_query, s.jobs_reversed);
    assert(s.recomputed().filtered_indices == rows);
    law_rows_are_true(s.jobs, list, s.expanded_arrays, r);
    let index = rows[r].position();
    let id = s.jobs[index as int].array_id;
    assert(list.contains(index));
    lemma_found(s.jobs[index as int].name, s.search_query);
    lemma_found(s.jobs[p].name, s.search_query);
    lemma_pending(s.jobs, s.search_query, s.jobs_reversed, id);
    let k = lemma_row_origin(s.jobs, list, s.expanded_arrays, list.len(), r);
    if name_matches(s.jobs[p].name, s.search_query) && s.jobs[p].array_step is Some
        && s.jobs[p].state == "PENDING"@ && s.jobs[p].array_id == id {
        assert(list.contains(p as usize));
        let j = choose|j: int| 0 <= j < list.len() && list[j] == p as usize;
        if j < k {
            lemma_none_waiting(s.jobs, list, id, k as nat, j);
        }
    }
}

/// Where several pending tasks of an array that is not expanded are found, the array has a row.
pub proof fn law_several_pending_tasks_have_a_row(s: AppView, p: int)
    requires
        s.selected_tab == SelectedTab::Jobs,
        s.jobs.len() <= usize::MAX,
        0 <= p < s.jobs.len(),
        found_in(s.jobs[p].name, s.search_query),
        s.jobs[p].array_step is Some,
        s.jobs[p].state == "PENDING"@,
        !s.expanded_arrays.contains(s.jobs[p].array_id),
        pending_found(s.jobs, s.search_query, s.jobs[p].array_id, s.jobs.len()) >= 2,
    ensures
        exists|r: int|
            0 <= r < s.recomputed().filtered_indices.len() && (
            #[trigger] s.recomputed().filtered_indices[r]) is CollapsedGroup
                && s.jobs[s.recomputed().filtered_indices[r]->index as int].array_id
                == s.jobs[p].array_id,
{
    let list = listed(s.jobs, s.search_query, s.jobs_reversed);
    let rows = grouped_rows(s.jobs, list, s.expanded_arrays);
    law_list_is_exact(s.jobs, s.search_query, s.jobs_reversed);
    lemma_found(s.jobs[p].name, s.search_query);
    lemma_pending(s.jobs, s.search_query, s.jobs_reversed, s.jobs[p].array_id);
    assert(list.contains(p as usize));
    let k = choose|k: int| 0 <= k < list.len() && list[k] == p as usize;
    assert(grouped(s.jobs, list, s.expanded_arrays, k));
    law_every_listed_job_is_shown(s.jobs, list, s.expanded_arrays, k);
    let r = choose|r: int|
        0 <= r < rows.len() && shows(#[trigger] rows[r], s.jobs, list, k);
    if rows[r] is Job {
        law_which_jobs_have_their_own_row(s, p);
        assert(rows[r] == DisplayEntry::Job(p as usize));
        assert(rows.contains(rows[r]));
    }
    assert(s.recomputed().filtered_indices[r] == rows[r]);
}

/// On the tab of jobs the rows follow the order of the jobs, or the other order where the list is
/// turned round, and every row is of a job that is there.
pub proof fn law_rows_follow_the_order(s: AppView, r1: int, r2: int)
    requires
        s.selected_tab == SelectedTab::Jobs,
        s.jobs.len() <= usize::MAX,
        0 <= r1 < r2 < s.recomputed().filtered_indices.len(),
    ensures
        ({
            let rows = s.recomputed().filtered_indices;
            &&& rows[r1].position() < s.jobs.len() && rows[r2].position() < s.jobs.len()
            &&& if s.jobs_reversed {
                rows[r1].position() > rows[r2].position()
            } else {
                rows[r1].position() < rows[r2].position()
            }
        }),
{
    let list = listed(s.jobs, s.search_query, s.jobs_reversed);
    law_list_is_exact(s.jobs, s.search_query, s.jobs_reversed);
    lemma_rows_in_order(s.jobs, s.search_query, s.jobs_reversed, s.expanded_arrays, r1, r2);
    law_rows_are_true(s.jobs, list, s.expanded_arrays, r1);
    law_rows_are_true(s.jobs, list, s.expanded_arrays, r2);
}

/// On the other tab every row is of one job; a job has a row exactly where the search finds it, and
/// the rows follow the order of the jobs, or the other order where the list is turned round.
pub proof fn law_rows_of_the_other_tab(s: AppView, p: int, r1: int, r2: int)
    requires
        s.selected_tab == SelectedTab::Sacct,
        s.sacct_jobs.len() <= usize::MAX,
        0 <= p < s.sacct_jobs.len(),
    ensures
        ({
            let rows = s.recomputed().filtered_indices;
            &&& rows.contains(DisplayEntry::Job(p as usize)) <==> found_in(
                s.sacct_jobs[p].name,
                s.search_query,
            )
            &&& 0 <= r1 < rows.len() ==> rows[r1] is Job && rows[r1]->Job_0 < s.sacct_jobs.len()
            &&& 0 <= r1 < r2 < rows.len() ==> if s.sacct_reversed {
                rows[r1].position() > rows[r2].position()
            } else {
                rows[r1].position() < rows[r2].position()
            }
        }),
{
    let list = listed(s.sacct_jobs, s.search_query, s.sacct_reversed);
    let rows = plain_rows(list);
    law_list_is_exact(s.sacct_jobs, s.search_query, s.sacct_reversed);
    lemma_found(s.sacct_jobs[p].name, s.search_query);
    assert(s.recomputed().filtered_indices == rows);
    if list.contains(p as usize) {
        let k = choose|k: int| 0 <= k < list.len() && list[k] == p as usize;
        assert(rows[k] == DisplayEntry::Job(p as usize));
    }
    if rows.contains(DisplayEntry::Job(p as usize)) {
        let k = choose|k: int| 0 <= k < rows.len() && rows[k] == DisplayEntry::Job(p as usize);
        assert(list[k] == p as usize);
    }
}

/// Where the selection goes when the rows are made anew: nowhere where it has a row, to the last
/// row where it is beyond it, and off the list, which then starts at its top, where there is none.
pub open spec fn brought_to(list: ListState, count: nat, after: ListState) -> bool {
    &&& count == 0 ==> after.selected is None && after.offset == 0
    &&& count > 0 ==> after.offset == list.offset
    &&& count > 0 && list.selected is None ==> after.selected is None
    &&& count > 0 ==> (list.selected matches Some(i) ==> after.selected == Some(
        if i < count {
            i
        } else {
            (count - 1) as usize
        },
    ))
}

/// Making the rows anew changes the rows and the place in the list that is shown, and nothing
/// else.
pub proof fn law_making_rows_changes_rows_and_place_only(s: AppView)
    ensures
        s.selected_tab == SelectedTab::Jobs ==> s.recomputed() == (AppView {
            filtered_indices: s.recomputed().filtered_indices,
            job_list_state: s.recomputed().job_list_state,
            ..s
        }) && brought_to(
            s.job_list_state,
            s.recomputed().filtered_indices.len(),
            s.recomputed().job_list_state,
        ),
        s.selected_tab == SelectedTab::Sacct ==> s.recomputed() == (AppView {
            filtered_indices: s.recomputed().filtered_indices,
            sacct_job_list_state: s.recomputed().sacct_job_list_state,
            ..s
        }) && brought_to(
            s.sacct_job_list_state,
            s.recomputed().filtered_indices.len(),
            s.recomputed().sacct_job_list_state,
        ),
{
}

/// The rows depend on what is listed alone: the jobs of the tab, its order, the search and the
/// expanded arrays.
pub proof fn law_rows_depend_on_what_is_listed(s: AppView, t: AppView)
    requires
        s.selected_tab == t.selected_tab,
        s.search_query == t.search_query,
        s.selected_tab == SelectedTab::Jobs ==> s.jobs == t.jobs && s.jobs_reversed
            == t.jobs_reversed && s.expanded_arrays == t.expanded_arrays,
        s.selected_tab == SelectedTab::Sacct ==> s.sacct_jobs == t.sacct_jobs && s.sacct_reversed
            == t.sacct_reversed,
    ensures
        s.recomputed().filtered_indices == t.recomputed().filtered_indices,
        s.rows_are_current() <==> s.filtered_indices == s.recomputed().filtered_indices,
{
}

/// The selected job is the one at the position of the selected row, among the jobs of the tab that
/// is shown.
pub proof fn law_selected_job_is_at_the_selected_row(s: AppView, i: usize)
    ensures
        ({
            let (jobs, list) = match s.selected_tab {
                SelectedTab::Jobs => (s.jobs, s.job_list_state),
                SelectedTab::Sacct => (s.sacct_jobs, s.sacct_job_list_state),
            };
            let row = s.filtered_indices[i as int];
            let p = match row {
                DisplayEntry::Job(p) => p,
                DisplayEntry::CollapsedGroup { index, total } => index,
            };
            &&& list.selected is None ==> s.selected_job() is None
            &&& list.selected == Some(i) && i < s.filtered_indices.len() && p < jobs.len()
                ==> s.selected_job() == Some(jobs[p as int])
            &&& list.selected == Some(i) && (i >= s.filtered_indices.len() || p >= jobs.len())
                ==> s.selected_job() is None
        }),
{
}

/// The file that is followed is the output file of the selected job that is chosen.
pub proof fn law_followed_file_is_that_of_the_selected_job(s: AppView)
    ensures
        s.selected_job() is None ==> s.output_path() is None,
        s.selected_job() matches Some(job) ==> s.output_path() == (
        if s.output_file_view is Stdout {
            job.stdout
        } else {
            job.stderr
        }),
{
}

} // verus!
