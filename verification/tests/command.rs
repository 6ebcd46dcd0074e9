use turm::command::{
    command_result, describe_failure, scancel_command, scontrol_command, CommandOutcome,
};

#[test]
fn a_job_is_cancelled() {
    let c = scancel_command("12_3", None);
    assert_eq!(c.program, "scancel");
    assert_eq!(c.args, ["12_3"]);
    assert_eq!(c.label, "scancel 12_3");
}

#[test]
fn a_signal_is_sent() {
    let c = scancel_command("12", Some("USR1"));
    assert_eq!(c.args, ["--signal", "USR1", "12"]);
    assert_eq!(c.label, "scancel --signal USR1 12");
}

#[test]
fn a_time_limit_is_set() {
    let c = scontrol_command("12", "1-00:00:00");
    assert_eq!(c.program, "scontrol");
    assert_eq!(c.args, ["update", "JobId=12", "TimeLimit=1-00:00:00"]);
    assert_eq!(c.label, "scontrol update JobId=12 TimeLimit=1-00:00:00");
}

#[test]
fn the_label_is_what_is_run() {
    for c in [
        scancel_command("12", None),
        scancel_command("12", Some("KILL")),
        scontrol_command("12", "5"),
    ] {
        assert_eq!(c.label, format!("{} {}", c.program, c.args.join(" ")));
    }
}

#[test]
fn failures_are_described() {
    assert_eq!(describe_failure(Some(1), "", " \n"), "Exit code: 1\n\nNo output.");
    assert_eq!(describe_failure(None, "out\n", ""), "Exit code: N/A\n\nout");
    assert_eq!(describe_failure(Some(-9), "", "err \n"), "Exit code: -9\n\nerr");
    assert_eq!(
        describe_failure(Some(2), "a\nb\n", "c\n"),
        "Exit code: 2\n\nstdout:\na\nb\n\nstderr:\nc"
    );
}

#[test]
fn a_command_that_succeeds_tells_nothing() {
    let outcome = CommandOutcome::Finished {
        success: true,
        code: Some(0),
        stdout: b"x".to_vec(),
        stderr: Vec::new(),
    };
    assert!(command_result("scancel 1".to_string(), outcome).is_ok());
}

#[test]
fn a_command_that_fails_tells_what_it_said() {
    let outcome = CommandOutcome::Finished {
        success: false,
        code: Some(1),
        stdout: Vec::new(),
        stderr: vec![b'n', b'o', 0xff, b'\n'],
    };
    let failure = command_result("scancel 1".to_string(), outcome).err().unwrap();
    assert_eq!(failure.command, "scancel 1");
    assert_eq!(failure.output, "Exit code: 1\n\nno\u{fffd}");
}

#[test]
fn a_command_that_cannot_be_run_tells_why() {
    let outcome = CommandOutcome::NotRun("No such file".to_string());
    let failure = command_result("scancel 1".to_string(), outcome).err().unwrap();
    assert_eq!(failure.command, "scancel 1");
    assert_eq!(failure.output, "No such file");
}
