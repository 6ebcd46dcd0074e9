//! The commands that change jobs, and what is told of one that failed.

use vstd::prelude::*;
use vstd::utf8::{decode_utf8, valid_utf8};

use crate::text::{
    join, join_texts, lemma_texts_push, signed_decimal, signed_decimal_text, texts,
    trim_end, trim_text_end,
};

verus! {

/// A command to be run.
pub struct CommandLine {
    pub program: String,
    pub args: Vec<String>,
    /// The command as it is shown to the user.
    pub label: String,
}

/// The texts of a command.
#[verifier::ext_equal]
pub ghost struct CommandLineView {
    pub program: Seq<char>,
    pub args: Seq<Seq<char>>,
    pub label: Seq<char>,
}

impl View for CommandLine {
    type V = CommandLineView;

    open spec fn view(&self) -> CommandLineView {
        CommandLineView {
            program: self.program@,
            args: texts(self.args@),
            label: self.label@,
        }
    }
}

/// The command that cancels a job, or sends it a signal.
pub open spec fn scancel(job_id: Seq<char>, signal: Option<Seq<char>>) -> CommandLineView {
    match signal {
        Some(name) => CommandLineView {
            program: "scancel"@,
            args: seq!["--signal"@, name, job_id],
            label: "scancel"@ + " --signal "@ + name + " "@ + job_id,
        },
        None => CommandLineView {
            program: "scancel"@,
            args: seq![job_id],
            label: "scancel"@ + " "@ + job_id,
        },
    }
}

/// The command that sets the time limit of a job.
pub open spec fn scontrol_update_timelimit(
    job_id: Seq<char>,
    time_limit: Seq<char>,
) -> CommandLineView {
    CommandLineView {
        program: "scontrol"@,
        args: seq!["update"@, "JobId="@ + job_id, "TimeLimit="@ + time_limit],
        label: "scontrol update JobId="@ + job_id + " TimeLimit="@ + time_limit,
    }
}

/// Makes the command that cancels a job, or sends it a signal.
pub fn scancel_command(job_id: &str, signal: Option<&str>) -> (r: CommandLine)
    ensures
        r@ == scancel(
            job_id@,
            match signal {
                Some(name) => Some(name@),
                None => None,
            },
        ),
{
    broadcast use lemma_texts_push;

    let mut args: Vec<String> = Vec::new();
    let mut label = "scancel".to_owned();
    assert(texts(args@) =~= Seq::empty());
    if let Some(name) = signal {
        args.push("--signal".to_owned());
        args.push(name.to_owned());
        label.append(" --signal ");
        label.append(name);
    }
    args.push(job_id.to_owned());
    label.append(" ");
    label.append(job_id);
    let r = CommandLine { program: "scancel".to_owned(), args, label };
    assert(r@ =~= scancel(
        job_id@,
        match signal {
            Some(name) => Some(name@),
            None => None,
        },
    ));
    r
}

/// Makes the command that sets the time limit of a job.
pub fn scontrol_command(job_id: &str, time_limit: &str) -> (r: CommandLine)
    ensures
        r@ == scontrol_update_timelimit(job_id@, time_limit@),
{
    broadcast use lemma_texts_push;

    let mut args: Vec<String> = Vec::new();
    assert(texts(args@) =~= Seq::empty());
    args.push("update".to_owned());
    args.push("JobId=".to_owned().concat(job_id));
    args.push("TimeLimit=".to_owned().concat(time_limit));
    let label = "scontrol update JobId=".to_owned().concat(job_id).concat(" TimeLimit=").concat(
        time_limit,
    );
    let r = CommandLine { program: "scontrol".to_owned(), args, label };
    assert(r@ =~= scontrol_update_timelimit(job_id@, time_limit@));
    r
}

/// The command as a user would type it.
pub open spec fn typed(c: CommandLineView) -> Seq<char> {
    join(seq![c.program] + c.args, " "@)
}

/// What is shown of a command is what is run: the program and its arguments, with blanks between
/// them.
pub proof fn law_label_is_what_is_run(
    job_id: Seq<char>,
    signal: Option<Seq<char>>,
    time_limit: Seq<char>,
)
    ensures
        scancel(job_id, signal).label == typed(scancel(job_id, signal)),
        scontrol_update_timelimit(job_id, time_limit).label == typed(
            scontrol_update_timelimit(job_id, time_limit),
        ),
{
    reveal_strlit(" ");
    reveal_strlit("scancel");
    reveal_strlit("--signal");
    reveal_strlit(" --signal ");
    reveal_strlit("update");
    reveal_strlit("scontrol");
    reveal_strlit("JobId=");
    reveal_strlit("TimeLimit=");
    reveal_strlit(" TimeLimit=");
    reveal_strlit("scontrol update JobId=");
    reveal_with_fuel(join, 5);
    let c = scancel(job_id, signal);
    let parts = seq![c.program] + c.args;
    match signal {
        Some(name) => {
            let rest = parts.drop_first();
            assert(rest =~= seq!["--signal"@, name, job_id]);
            assert(rest.drop_first() =~= seq![name, job_id]);
            assert(rest.drop_first().drop_first() =~= seq![job_id]);
            assert(c.label =~= "scancel"@ + " "@ + ("--signal"@ + " "@ + (name + " "@ + job_id)));
        },
        None => {
            assert(parts.drop_first() =~= seq![job_id]);
        },
    }
    let d = scontrol_update_timelimit(job_id, time_limit);
    let all = seq![d.program] + d.args;
    let a1 = all.drop_first();
    assert(a1 =~= seq!["update"@, "JobId="@ + job_id, "TimeLimit="@ + time_limit]);
    assert(a1.drop_first() =~= seq!["JobId="@ + job_id, "TimeLimit="@ + time_limit]);
    assert(a1.drop_first().drop_first() =~= seq!["TimeLimit="@ + time_limit]);
    assert(d.label =~= "scontrol"@ + " "@ + ("update"@ + " "@ + ("JobId="@ + job_id + " "@ + (
    "TimeLimit="@ + time_limit))));
}

// ---------------------------------------------------------------------------------------------
// Outcome
// ---------------------------------------------------------------------------------------------
/// How running a command ended.
pub enum CommandOutcome {
    /// It could not be run, for this reason.
    NotRun(String),
    /// It ran. The exit code is missing where a signal ended it.
    Finished { success: bool, code: Option<i32>, stdout: Vec<u8>, stderr: Vec<u8> },
}

/// What is told of a command that failed.
pub struct CommandFailure {
    pub command: String,
    pub output: String,
}

/// The text of bytes that may not all be UTF-8.
pub uninterp spec fn lossy_text(bytes: Seq<u8>) -> Seq<char>;

/// Calls `String::from_utf8_lossy`, whose result is named `lossy_text` here. Bytes that are
/// UTF-8 give the text that they encode.
#[verifier::external_body]
fn from_utf8_lossy(bytes: &Vec<u8>) -> (r: String)
    ensures
        r@ == lossy_text(bytes@),
        valid_utf8(bytes@) ==> r@ == decode_utf8(bytes@),
{
    String::from_utf8_lossy(bytes).into_owned()
}

/// The line about the exit code.
pub open spec fn exit_line(code: Option<i32>) -> Seq<char> {
    match code {
        Some(n) => "Exit code: "@ + signed_decimal(n as int),
        None => "Exit code: N/A"@,
    }
}

/// What is told of the output, without the white space at the end of each stream. Where both
/// streams have text they are told apart.
pub open spec fn output_parts(stdout: Seq<char>, stderr: Seq<char>) -> Seq<Seq<char>> {
    let out = trim_end(stdout);
    let err = trim_end(stderr);
    if out.len() > 0 && err.len() > 0 {
        seq!["stdout:\n"@ + out, "stderr:\n"@ + err]
    } else if out.len() > 0 {
        seq![out]
    } else if err.len() > 0 {
        seq![err]
    } else {
        seq!["No output."@]
    }
}

/// The account of a command that failed.
pub open spec fn failure_text(
    code: Option<i32>,
    stdout: Seq<char>,
    stderr: Seq<char>,
) -> Seq<char> {
    join(seq![exit_line(code)] + output_parts(stdout, stderr), "\n\n"@)
}

/// Gives the account of a command that failed.
pub fn describe_failure(code: Option<i32>, stdout: &str, stderr: &str) -> (r: String)
    ensures
        r@ == failure_text(code, stdout@, stderr@),
{
    broadcast use lemma_texts_push;

    let mut details: Vec<String> = Vec::new();
    assert(texts(details@) =~= Seq::empty());
    details.push(
        match code {
            Some(code) => "Exit code: ".to_owned().concat(signed_decimal_text(code).as_str()),
            None => "Exit code: N/A".to_owned(),
        },
    );
    let out = trim_text_end(stdout);
    let err = trim_text_end(stderr);
    let has_stdout = !out.as_str().is_empty();
    let has_stderr = !err.as_str().is_empty();
    if has_stdout && has_stderr {
        details.push("stdout:\n".to_owned().concat(out.as_str()));
        details.push("stderr:\n".to_owned().concat(err.as_str()));
    } else if has_stdout {
        details.push(out);
    } else if has_stderr {
        details.push(err);
    }
    if details.len() == 1 {
        details.push("No output.".to_owned());
    }
    assert(texts(details@) =~= seq![exit_line(code)] + output_parts(stdout@, stderr@));
    join_texts(&details, "\n\n")
}

/// Tells whether a command did what was asked, and what went wrong where it did not.
pub fn command_result(label: String, outcome: CommandOutcome) -> (r: Result<(), CommandFailure>)
    ensures
        match outcome {
            CommandOutcome::NotRun(error) => r matches Err(failure) && failure.command@ == label@
                && failure.output@ == error@,
            CommandOutcome::Finished { success, code, stdout, stderr } => if success {
                r is Ok
            } else {
                r matches Err(failure) && failure.command@ == label@ && failure.output@
                    == failure_text(code, lossy_text(stdout@), lossy_text(stderr@))
            },
        },
        (outcome matches CommandOutcome::Finished { success, code, stdout, stderr } && !success
            && valid_utf8(stdout@) && valid_utf8(stderr@)) ==> (r matches Err(failure)
            && failure.output@ == failure_text(
            outcome->code,
            decode_utf8(outcome->stdout@),
            decode_utf8(outcome->stderr@),
        )),
{
    match outcome {
        CommandOutcome::NotRun(error) => Err(CommandFailure { command: label, output: error }),
        CommandOutcome::Finished { success, code, stdout, stderr } => {
            if success {
                return Ok(());
            }
            let out = from_utf8_lossy(&stdout);
            let err = from_utf8_lossy(&stderr);
            let output = describe_failure(code, out.as_str(), err.as_str());
            Err(CommandFailure { command: label, output })
        },
    }
}

} // verus!
