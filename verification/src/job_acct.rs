//! Jobs from the accounting command: what to ask it for, and how to read its answer.

use vstd::prelude::*;
use vstd::utf8::{decode_utf8, valid_utf8};

use crate::job::{job_views, Job, JobView};
use crate::path::{resolve, resolved, Fields, PathFields};
use crate::text::{
    after_char, before_char, begins_with, contains, cut_at_char, find_from, has, lemma_find_from,
    lemma_texts_push, opt_text, same, split, split_text, starts_with, strip_prefix, substring,
    texts, to_chars, trim, trim_text,
};

verus! {

// ---------------------------------------------------------------------------------------------
// Arguments
// ---------------------------------------------------------------------------------------------
/// The flags of `squeue` that `sacct` has no counterpart of.
pub open spec fn unsupported(arg: Seq<char>) -> bool {
    ||| arg == "--all"@
    ||| arg == "--hide"@
    ||| arg == "--me"@
    ||| arg == "--sibling"@
    ||| starts_with(arg, "--licenses="@)
    ||| starts_with(arg, "--reservation="@)
    ||| starts_with(arg, "--step="@)
    ||| starts_with(arg, "--sort="@)
}

/// The argument of `sacct` that an argument of `squeue` becomes, where there is one.
pub open spec fn sacct_arg(arg: Seq<char>) -> Option<Seq<char>> {
    if starts_with(arg, "--job="@) {
        Some("--jobs="@ + arg.skip("--job="@.len() as int))
    } else if starts_with(arg, "--states="@) {
        Some("--state="@ + arg.skip("--states="@.len() as int))
    } else if unsupported(arg) {
        None
    } else {
        Some(arg)
    }
}

/// The arguments of `sacct` that those of `squeue` become, in their order.
pub open spec fn sacct_args(args: Seq<Seq<char>>) -> Seq<Seq<char>>
    decreases args.len(),
{
    if args.len() == 0 {
        Seq::empty()
    } else {
        let before = sacct_args(args.drop_last());
        match sacct_arg(args.last()) {
            Some(arg) => before.push(arg),
            None => before,
        }
    }
}

/// Turns one argument of `squeue` into one of `sacct`.
fn translate_arg(arg: &String) -> (r: Option<String>)
    ensures
        opt_text(r) == sacct_arg(arg@),
{
    if let Some(val) = strip_prefix(arg.as_str(), "--job=") {
        let mut r = "--jobs=".to_owned();
        r.append(val.as_str());
        return Some(r);
    }
    if let Some(val) = strip_prefix(arg.as_str(), "--states=") {
        let mut r = "--state=".to_owned();
        r.append(val.as_str());
        return Some(r);
    }
    if same(arg.as_str(), "--all") || same(arg.as_str(), "--hide") || same(arg.as_str(), "--me")
        || same(arg.as_str(), "--sibling") || begins_with(arg.as_str(), "--licenses=")
        || begins_with(arg.as_str(), "--reservation=") || begins_with(arg.as_str(), "--step=")
        || begins_with(arg.as_str(), "--sort=") {
        return None;
    }
    Some(arg.clone())
}

/// Filters the arguments of `squeue` to those that `sacct` understands, under the names that
/// `sacct` has for them.
pub fn sacct_compatible_args(squeue_args: &[String]) -> (r: Vec<String>)
    ensures
        texts(r@) == sacct_args(texts(squeue_args@)),
{
    let mut r: Vec<String> = Vec::new();
    let ghost all = texts(squeue_args@);
    let mut i: usize = 0;
    proof {
        assert(texts(r@) =~= Seq::empty());
    }
    while i < squeue_args.len()
        invariant
            i <= squeue_args@.len(),
            all == texts(squeue_args@),
            texts(r@) == sacct_args(all.take(i as int)),
        decreases squeue_args@.len() - i,
    {
        let ghost before = r@;
        proof {
            assert(all.take(i + 1).drop_last() =~= all.take(i as int));
            assert(all.take(i + 1).last() == squeue_args@[i as int]@);
        }
        if let Some(arg) = translate_arg(&squeue_args[i]) {
            r.push(arg);
            assert(texts(r@) =~= texts(before).push(arg@));
        }
        i += 1;
    }
    proof {
        assert(all.take(i as int) =~= all);
    }
    r
}

proof fn lemma_prefix_chars(s: Seq<char>, prefix: Seq<char>)
    requires
        starts_with(s, prefix),
    ensures
        prefix.len() <= s.len(),
        forall|i: int| 0 <= i < prefix.len() ==> #[trigger] s[i] == prefix[i],
{
    assert forall|i: int| 0 <= i < prefix.len() implies #[trigger] s[i] == prefix[i] by {
        assert(s.subrange(0, prefix.len() as int)[i] == s[i]);
    }
}

/// An argument that `sacct` understands: it is not taken for another flag, nor dropped.
pub open spec fn understood(arg: Seq<char>) -> bool {
    !starts_with(arg, "--job="@) && !starts_with(arg, "--states="@) && !unsupported(arg)
}

/// What an argument becomes is an argument that `sacct` understands.
pub proof fn law_translated_argument_is_understood(arg: Seq<char>)
    ensures
        sacct_arg(arg) matches Some(r) ==> understood(r),
{
    reveal_strlit("--job=");
    reveal_strlit("--jobs=");
    reveal_strlit("--states=");
    reveal_strlit("--state=");
    reveal_strlit("--all");
    reveal_strlit("--hide");
    reveal_strlit("--me");
    reveal_strlit("--sibling");
    reveal_strlit("--licenses=");
    reveal_strlit("--reservation=");
    reveal_strlit("--step=");
    reveal_strlit("--sort=");
    if let Some(r) = sacct_arg(arg) {
        if starts_with(arg, "--job="@) || starts_with(arg, "--states="@) {
            assert(r[2] == 'j' || r[2] == 's' && r[3] == 't' && r[4] == 'a');
            if starts_with(r, "--job="@) {
                lemma_prefix_chars(r, "--job="@);
                assert(r[5] == '=');
            }
            if starts_with(r, "--states="@) {
                lemma_prefix_chars(r, "--states="@);
                assert(r[2] == 's');
                assert(r[7] == 's');
            }
            if starts_with(r, "--licenses="@) {
                lemma_prefix_chars(r, "--licenses="@);
                assert(r[2] == 'l');
            }
            if starts_with(r, "--reservation="@) {
                lemma_prefix_chars(r, "--reservation="@);
                assert(r[2] == 'r');
            }
            if starts_with(r, "--step="@) {
                lemma_prefix_chars(r, "--step="@);
                assert(r[4] == 'e');
            }
            if starts_with(r, "--sort="@) {
                lemma_prefix_chars(r, "--sort="@);
                assert(r[3] == 'o');
            }
            assert("--all"@[2] == 'a');
            assert("--hide"@[2] == 'h');
            assert("--me"@[2] == 'm');
            assert("--sibling"@[3] == 'i');
        }
    }
}

/// Arguments that `sacct` understands are kept as they are, so translating twice is the same as
/// translating once.
pub proof fn law_translating_again_changes_nothing(args: Seq<Seq<char>>)
    ensures
        sacct_args(sacct_args(args)) == sacct_args(args),
    decreases args.len(),
{
    if args.len() > 0 {
        law_translating_again_changes_nothing(args.drop_last());
        law_translated_argument_is_understood(args.last());
        match sacct_arg(args.last()) {
            Some(arg) => {
                assert(sacct_args(args).drop_last() =~= sacct_args(args.drop_last()));
            },
            None => {},
        }
    }
}

// ---------------------------------------------------------------------------------------------
// Records
// ---------------------------------------------------------------------------------------------
/// What stands between the fields of a record.
pub open spec fn separator() -> Seq<char> {
    "###turm###"@
}

/// The fields asked for, in the order in which a record has them.
pub open spec fn field_names() -> Seq<char> {
    "jobid,jobname,state,user,Elapsed,AllocTRES,Partition,NodeList,SubmitLine,Reason,WorkDir,StdOut,StdErr"@
}

/// How many fields a record has.
pub const FIELD_COUNT: usize = 13;

/// The first letter of a state, or a question mark where its first byte is no letter by itself.
pub open spec fn compact_state(state: Seq<char>) -> Seq<char> {
    if state.len() > 0 && (state[0] as u32) < 128 {
        state.take(1)
    } else {
        "?"@
    }
}

/// What the placeholders in the file names of a record stand for.
pub open spec fn record_fields(p: Seq<Seq<char>>) -> Fields {
    Fields {
        array_master: before_char(p[0], '_'),
        array_id: match after_char(p[0], '_') {
            Some(task) => task,
            None => "N/A"@,
        },
        id: p[0],
        host: p[7],
        user: p[3],
        name: p[1],
    }
}

/// The job that a record tells of.
pub open spec fn record_job(p: Seq<Seq<char>>) -> JobView {
    JobView {
        job_id: p[0],
        array_id: before_char(p[0], '_'),
        array_step: after_char(p[0], '_'),
        name: p[1],
        state: p[2],
        state_compact: compact_state(p[2]),
        reason: if p[9] == "None"@ {
            None
        } else {
            Some(p[9])
        },
        user: p[3],
        time: p[4],
        time_limit: Seq::empty(),
        start_time: Seq::empty(),
        tres: p[5],
        partition: p[6],
        qos: Seq::empty(),
        nodelist: p[7],
        stdout: Some(resolved(p[11], record_fields(p), p[10])),
        stderr: Some(resolved(p[12], record_fields(p), p[10])),
        command: p[8],
    }
}

/// A record that is listed: it has all fields, is not about a step of a job, and the job does
/// not run.
pub open spec fn is_listed(p: Seq<Seq<char>>) -> bool {
    p.len() == FIELD_COUNT && !contains(p[0], "."@) && p[2] != "RUNNING"@
}

/// The job that a line tells of, where there is one.
pub open spec fn line_job(line: Seq<char>) -> Option<JobView> {
    let p = split(trim(line), separator());
    if is_listed(p) {
        Some(record_job(p))
    } else {
        None
    }
}

/// The jobs that the lines tell of, in their order.
pub open spec fn lines_jobs(lines: Seq<Seq<char>>) -> Seq<JobView>
    decreases lines.len(),
{
    if lines.len() == 0 {
        Seq::empty()
    } else {
        let before = lines_jobs(lines.drop_last());
        match line_job(lines.last()) {
            Some(job) => before.push(job),
            None => before,
        }
    }
}

/// The jobs that the answer of `sacct` tells of.
pub open spec fn acct_jobs(text: Seq<char>) -> Seq<JobView> {
    lines_jobs(split(text, "\n"@))
}

/// Calls `std::str::from_utf8`, which gives the text that bytes encode in UTF-8, if they do.
#[verifier::external_body]
fn utf8_text(bytes: &[u8]) -> (r: Option<&str>)
    ensures
        r is Some <==> valid_utf8(bytes@),
        r matches Some(text) ==> text@ == decode_utf8(bytes@),
{
    std::str::from_utf8(bytes).ok()
}

/// Shortens a state to its first letter.
pub fn shorten_state(state: &str) -> (r: String)
    ensures
        r@ == compact_state(state@),
{
    let text = to_chars(state);
    if text.len() > 0 && (text[0] as u32) < 128 {
        let r = substring(&text, 0, 1);
        assert(r@ =~= state@.take(1));
        r
    } else {
        "?".to_owned()
    }
}

/// Reads jobs from the accounting command.
pub struct JobAcctWatcher {
    pub sacct_args: Vec<String>,
}

impl JobAcctWatcher {
    /// A watcher for the jobs that the arguments of `squeue` select.
    pub fn new(squeue_args: Vec<String>) -> (r: JobAcctWatcher)
        ensures
            texts(r.sacct_args@) == sacct_args(texts(squeue_args@)),
    {
        JobAcctWatcher { sacct_args: sacct_compatible_args(squeue_args.as_slice()) }
    }

    /// The path of an output file of a job, with its placeholders replaced.
    pub fn resolve_path(
        path: &str,
        array_master: &str,
        array_id: &str,
        id: &str,
        host: &str,
        user: &str,
        name: &str,
        working_dir: &str,
    ) -> (r: Option<String>)
        ensures
            opt_text(r) == Some(
                resolved(
                    path@,
                    (Fields {
                        array_master: array_master@,
                        array_id: array_id@,
                        id: id@,
                        host: host@,
                        user: user@,
                        name: name@,
                    }),
                    working_dir@,
                ),
            ),
    {
        let fields = PathFields {
            array_master: array_master.to_owned(),
            array_id: array_id.to_owned(),
            id: id.to_owned(),
            host: host.to_owned(),
            user: user.to_owned(),
            name: name.to_owned(),
        };
        Some(resolve(path, fields, working_dir))
    }

    /// Reads one line of the answer.
    pub fn parse_line(line: &str) -> (r: Option<Job>)
        ensures
            match r {
                Some(job) => line_job(line@) == Some(job@),
                None => line_job(line@) is None,
            },
    {
        proof {
            reveal_strlit("###turm###");
        }
        let record = trim_text(line);
        let parts = split_text(record.as_str(), "###turm###");
        let ghost p = texts(parts@);
        if parts.len() != FIELD_COUNT {
            return None;
        }
        assert(forall|i: int| 0 <= i < 13 ==> p[i] == #[trigger] parts@[i]@);
        let id = parts[0].as_str();
        let name = parts[1].as_str();
        let state = parts[2].as_str();
        if has(id, ".") {
            return None;
        }
        if same(state, "RUNNING") {
            return None;
        }
        let user = parts[3].as_str();
        let nodelist = parts[7].as_str();
        let reason = parts[9].as_str();
        let working_dir = parts[10].as_str();
        let (array_job_id, array_task_id) = cut_at_char(id, '_');
        let task: String = match array_task_id.as_ref() {
            Some(task) => task.clone(),
            None => "N/A".to_owned(),
        };
        let stdout = Self::resolve_path(
            parts[11].as_str(),
            array_job_id.as_str(),
            task.as_str(),
            id,
            nodelist,
            user,
            name,
            working_dir,
        );
        let stderr = Self::resolve_path(
            parts[12].as_str(),
            array_job_id.as_str(),
            task.as_str(),
            id,
            nodelist,
            user,
            name,
            working_dir,
        );
        let job = Job {
            job_id: id.to_owned(),
            array_id: array_job_id,
            array_step: array_task_id,
            name: name.to_owned(),
            state: state.to_owned(),
            state_compact: shorten_state(state),
            reason: if same(reason, "None") {
                None
            } else {
                Some(reason.to_owned())
            },
            user: user.to_owned(),
            time: parts[4].clone(),
            time_limit: String::new(),
            start_time: String::new(),
            tres: parts[5].clone(),
            partition: parts[6].clone(),
            qos: String::new(),
            nodelist: nodelist.to_owned(),
            stdout,
            stderr,
            command: parts[8].clone(),
        };
        assert(job@ =~= record_job(p));
        Some(job)
    }

    /// Reads the answer.
    pub fn parse_text(text: &str) -> (jobs: Vec<Job>)
        ensures
            job_views(jobs@) == acct_jobs(text@),
    {
        proof {
            reveal_strlit("\n");
        }
        let lines = split_text(text, "\n");
        let ghost all = texts(lines@);
        let mut jobs: Vec<Job> = Vec::new();
        let mut i: usize = 0;
        proof {
            assert(job_views(jobs@) =~= Seq::empty());
        }
        while i < lines.len()
            invariant
                i <= lines@.len(),
                all == texts(lines@),
                job_views(jobs@) == lines_jobs(all.take(i as int)),
            decreases lines@.len() - i,
        {
            let ghost before = jobs@;
            proof {
                assert(all.take(i + 1).drop_last() =~= all.take(i as int));
                assert(all.take(i + 1).last() == lines@[i as int]@);
            }
            if let Some(job) = Self::parse_line(lines[i].as_str()) {
                jobs.push(job);
                assert(job_views(jobs@) =~= job_views(before).push(job@));
            }
            i += 1;
        }
        proof {
            assert(all.take(i as int) =~= all);
        }
        jobs
    }

    /// Reads the bytes of the answer. Bytes that are not UTF-8 tell of nothing.
    pub fn parse_output(output: &[u8]) -> (r: Option<Vec<Job>>)
        ensures
            match r {
                Some(jobs) => valid_utf8(output@) && job_views(jobs@) == acct_jobs(
                    decode_utf8(output@),
                ),
                None => !valid_utf8(output@),
            },
    {
        match utf8_text(output) {
            Some(text) => Some(Self::parse_text(text)),
            None => None,
        }
    }

    /// The arguments for `sacct`: those that select the jobs, and then those that fix the form
    /// of the answer.
    pub fn command_args(&self) -> (r: Vec<String>)
        ensures
            texts(r@) == texts(self.sacct_args@) + seq![
                "--parsable2"@,
                "--noheader"@,
                "--delimiter="@ + separator(),
                "--format"@,
                field_names(),
            ],
    {
        broadcast use lemma_texts_push;

        let mut r: Vec<String> = Vec::new();
        let mut i: usize = 0;
        assert(texts(r@) =~= Seq::empty());
        while i < self.sacct_args.len()
            invariant
                i <= self.sacct_args@.len(),
                texts(r@) == texts(self.sacct_args@).take(i as int),
            decreases self.sacct_args@.len() - i,
        {
            let ghost before = r@;
            let arg = self.sacct_args[i].clone();
            r.push(arg);
            i += 1;
            assert(texts(r@) =~= texts(before).push(arg@));
            assert(texts(r@) =~= texts(self.sacct_args@).take(i as int));
        }
        r.push("--parsable2".to_owned());
        r.push("--noheader".to_owned());
        let mut delimiter = "--delimiter=".to_owned();
        delimiter.append("###turm###");
        r.push(delimiter);
        r.push("--format".to_owned());
        r.push(
            "jobid,jobname,state,user,Elapsed,AllocTRES,Partition,NodeList,SubmitLine,Reason,WorkDir,StdOut,StdErr".to_owned(),
        );
        assert(texts(r@) =~= texts(self.sacct_args@) + seq![
            "--parsable2"@,
            "--noheader"@,
            "--delimiter="@ + separator(),
            "--format"@,
            field_names(),
        ]);
        r
    }
}

/// A text is what stands before the first underscore, the underscore, and what follows it.
proof fn lemma_cut_and_glue(s: Seq<char>)
    requires
        after_char(s, '_') is Some,
    ensures
        before_char(s, '_') + "_"@ + after_char(s, '_')->0 == s,
{
    reveal_strlit("_");
    lemma_find_from(s, seq!['_'], 0);
    let i = find_from(s, seq!['_'], 0)->0;
    assert(s.subrange(i, i + 1)[0] == '_');
    assert(s =~= s.take(i) + "_"@ + s.skip(i + 1));
}

/// The id that a listed job goes by is the id in its record.
pub proof fn law_listed_job_goes_by_its_record(line: Seq<char>)
    ensures
        line_job(line) matches Some(job) ==> job.id() == job.job_id && job.job_id == split(
            trim(line),
            separator(),
        )[0],
{
    let p = split(trim(line), separator());
    if is_listed(p) && after_char(p[0], '_') is Some {
        lemma_cut_and_glue(p[0]);
    }
}

/// No job that runs and no step of a job is ever listed.
pub proof fn law_no_running_job_is_listed(text: Seq<char>, i: int)
    requires
        0 <= i < acct_jobs(text).len(),
    ensures
        acct_jobs(text)[i].state != "RUNNING"@,
        !contains(acct_jobs(text)[i].job_id, "."@),
{
    lemma_none_runs(split(text, "\n"@), i);
}

proof fn lemma_none_runs(lines: Seq<Seq<char>>, i: int)
    requires
        0 <= i < lines_jobs(lines).len(),
    ensures
        lines_jobs(lines)[i].state != "RUNNING"@,
        !contains(lines_jobs(lines)[i].job_id, "."@),
    decreases lines.len(),
{
    let before = lines_jobs(lines.drop_last());
    if i < before.len() {
        lemma_none_runs(lines.drop_last(), i);
    }
}

} // verus!
