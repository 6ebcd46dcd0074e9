use turm::job::Job;
use turm::job_acct::{sacct_compatible_args, shorten_state, JobAcctWatcher, FIELD_COUNT};

fn strings(v: &[&str]) -> Vec<String> {
    v.iter().map(|s| s.to_string()).collect()
}

fn record(fields: [&str; FIELD_COUNT]) -> String {
    fields.join("###turm###")
}

fn finished() -> [&'static str; FIELD_COUNT] {
    [
        "12345_2",
        "train",
        "COMPLETED",
        "ada",
        "01:02:03",
        "cpu=4",
        "gpu",
        "node1,node2",
        "sbatch run.sh",
        "None",
        "/home/ada",
        "out-%A_%a.txt",
        "",
    ]
}

#[test]
fn arguments_are_translated() {
    let args = strings(&[
        "--job=1,2",
        "--states=PD",
        "--user=ada",
        "--all",
        "--hide",
        "--me",
        "--sibling",
        "--licenses=x",
        "--reservation=r",
        "--step=1.0",
        "--sort=i",
        "--partition=gpu",
    ]);
    assert_eq!(
        sacct_compatible_args(&args),
        strings(&["--jobs=1,2", "--state=PD", "--user=ada", "--partition=gpu"])
    );
}

#[test]
fn arguments_that_only_resemble_others_are_kept() {
    let args = strings(&["--job", "--states", "--allx", "--licenses", "--sort", "--me=1", ""]);
    assert_eq!(sacct_compatible_args(&args), args);
}

#[test]
fn translating_again_changes_nothing() {
    let once = sacct_compatible_args(&strings(&["--job=1", "--states=R", "--all", "-u", "x"]));
    assert_eq!(sacct_compatible_args(&once), once);
}

#[test]
fn the_command_asks_for_the_fields() {
    let watcher = JobAcctWatcher::new(strings(&["--me", "--job=7"]));
    assert_eq!(
        watcher.command_args(),
        strings(&[
            "--jobs=7",
            "--parsable2",
            "--noheader",
            "--delimiter=###turm###",
            "--format",
            "jobid,jobname,state,user,Elapsed,AllocTRES,Partition,NodeList,SubmitLine,Reason,\
             WorkDir,StdOut,StdErr",
        ])
    );
}

#[test]
fn as_many_fields_are_asked_for_as_a_record_has() {
    let args = JobAcctWatcher::new(Vec::new()).command_args();
    assert_eq!(args.last().unwrap().split(',').count(), FIELD_COUNT);
}

#[test]
fn a_record_is_read() {
    let job = JobAcctWatcher::parse_line(&record(finished())).unwrap();
    assert_eq!(job.job_id, "12345_2");
    assert_eq!(job.array_id, "12345");
    assert_eq!(job.array_step, Some("2".to_string()));
    assert_eq!(job.id(), "12345_2");
    assert_eq!(job.name, "train");
    assert_eq!(job.state, "COMPLETED");
    assert_eq!(job.state_compact, "C");
    assert_eq!(job.reason, None);
    assert_eq!(job.user, "ada");
    assert_eq!(job.time, "01:02:03");
    assert_eq!(job.time_limit, "");
    assert_eq!(job.start_time, "");
    assert_eq!(job.tres, "cpu=4");
    assert_eq!(job.partition, "gpu");
    assert_eq!(job.qos, "");
    assert_eq!(job.nodelist, "node1,node2");
    assert_eq!(job.command, "sbatch run.sh");
    assert_eq!(job.stdout, Some("/home/ada/out-12345_2.txt".to_string()));
    assert_eq!(job.stderr, Some("/home/ada/slurm-12345_2.out".to_string()));
}

#[test]
fn a_job_outside_an_array_has_no_step() {
    let mut fields = finished();
    fields[0] = "77";
    fields[9] = "Dependency";
    fields[11] = "";
    let job = JobAcctWatcher::parse_line(&record(fields)).unwrap();
    assert_eq!(job.array_id, "77");
    assert_eq!(job.array_step, None);
    assert_eq!(job.id(), "77");
    assert_eq!(job.reason, Some("Dependency".to_string()));
    assert_eq!(job.stdout, Some("/home/ada/slurm-77.out".to_string()));
}

#[test]
fn steps_and_running_jobs_are_left_out() {
    let mut step = finished();
    step[0] = "12345.batch";
    assert!(JobAcctWatcher::parse_line(&record(step)).is_none());
    let mut running = finished();
    running[2] = "RUNNING";
    assert!(JobAcctWatcher::parse_line(&record(running)).is_none());
    let mut cancelled = finished();
    cancelled[2] = "CANCELLED by 100";
    assert!(JobAcctWatcher::parse_line(&record(cancelled)).is_some());
}

#[test]
fn records_with_missing_or_extra_fields_are_left_out() {
    assert!(JobAcctWatcher::parse_line("").is_none());
    assert!(JobAcctWatcher::parse_line("1###turm###x").is_none());
    let long = record(finished()) + "###turm###more";
    assert!(JobAcctWatcher::parse_line(&long).is_none());
}

#[test]
fn a_state_is_shortened_to_its_first_letter() {
    assert_eq!(shorten_state("PENDING"), "P");
    assert_eq!(shorten_state(""), "?");
    assert_eq!(shorten_state("é"), "?");
}

#[test]
fn an_answer_is_read_line_by_line() {
    let mut second = finished();
    second[0] = "9";
    let text = format!("  {}  \r\n\n\nnonsense\n{}", record(finished()), record(second));
    let jobs: Vec<Job> = JobAcctWatcher::parse_output(text.as_bytes()).unwrap();
    let ids: Vec<&str> = jobs.iter().map(|j| j.job_id.as_str()).collect();
    assert_eq!(ids, ["12345_2", "9"]);
    assert_eq!(JobAcctWatcher::parse_text("").len(), 0);
    assert_eq!(JobAcctWatcher::parse_output(b"").unwrap().len(), 0);
}

#[test]
fn bytes_that_are_not_text_are_refused() {
    assert!(JobAcctWatcher::parse_output(&[b'a', 0xff, b'\n']).is_none());
}

#[test]
fn no_running_job_and_no_step_is_listed() {
    let mut lines: Vec<String> = Vec::new();
    for id in ["1", "1.0", "2_3", "2_3.extern"] {
        for state in ["RUNNING", "FAILED"] {
            let mut fields = finished();
            fields[0] = id;
            fields[2] = state;
            lines.push(record(fields));
        }
    }
    let jobs = JobAcctWatcher::parse_text(&lines.join("\n"));
    assert_eq!(jobs.len(), 2);
    assert!(jobs.iter().all(|j| j.state == "FAILED" && !j.job_id.contains('.')));
    assert!(jobs.iter().all(|j| j.id() == j.job_id));
}
