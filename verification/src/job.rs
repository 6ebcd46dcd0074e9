//! One job of the cluster, as the monitor shows it.

use vstd::prelude::*;

use crate::text::{opt_text, same};

verus! {

/// A job, or one task of an array job.
pub struct Job {
    pub job_id: String,
    pub array_id: String,
    pub array_step: Option<String>,
    pub name: String,
    pub state: String,
    pub state_compact: String,
    pub reason: Option<String>,
    pub user: String,
    pub time: String,
    pub time_limit: String,
    pub start_time: String,
    pub tres: String,
    pub partition: String,
    pub qos: String,
    pub nodelist: String,
    pub stdout: Option<String>,
    pub stderr: Option<String>,
    pub command: String,
}

/// The texts of a job.
#[verifier::ext_equal]
pub ghost struct JobView {
    pub job_id: Seq<char>,
    pub array_id: Seq<char>,
    pub array_step: Option<Seq<char>>,
    pub name: Seq<char>,
    pub state: Seq<char>,
    pub state_compact: Seq<char>,
    pub reason: Option<Seq<char>>,
    pub user: Seq<char>,
    pub time: Seq<char>,
    pub time_limit: Seq<char>,
    pub start_time: Seq<char>,
    pub tres: Seq<char>,
    pub partition: Seq<char>,
    pub qos: Seq<char>,
    pub nodelist: Seq<char>,
    pub stdout: Option<Seq<char>>,
    pub stderr: Option<Seq<char>>,
    pub command: Seq<char>,
}

impl View for Job {
    type V = JobView;

    open spec fn view(&self) -> JobView {
        JobView {
            job_id: self.job_id@,
            array_id: self.array_id@,
            array_step: opt_text(self.array_step),
            name: self.name@,
            state: self.state@,
            state_compact: self.state_compact@,
            reason: opt_text(self.reason),
            user: self.user@,
            time: self.time@,
            time_limit: self.time_limit@,
            start_time: self.start_time@,
            tres: self.tres@,
            partition: self.partition@,
            qos: self.qos@,
            nodelist: self.nodelist@,
            stdout: opt_text(self.stdout),
            stderr: opt_text(self.stderr),
            command: self.command@,
        }
    }
}

impl JobView {
    /// The id a job goes by: for a task of an array the id of the array and the number of the
    /// task, for any other job its own id.
    pub open spec fn id(self) -> Seq<char> {
        match self.array_step {
            Some(step) => self.array_id + "_"@ + step,
            None => self.job_id,
        }
    }

    /// A task of an array that waits to be started.
    pub open spec fn waits_in_array(self) -> bool {
        self.array_step is Some && self.state == "PENDING"@
    }
}

/// The views of a list of jobs.
pub open spec fn job_views(jobs: Seq<Job>) -> Seq<JobView> {
    Seq::new(jobs.len(), |i: int| jobs[i]@)
}

impl Job {
    /// The id that the job goes by.
    pub fn id(&self) -> (r: String)
        ensures
            r@ == self@.id(),
    {
        match self.array_step.as_ref() {
            Some(array_step) => {
                let mut r = self.array_id.clone();
                r.append("_");
                r.append(array_step.as_str());
                r
            },
            None => self.job_id.clone(),
        }
    }

    /// Is this a task of an array that waits to be started?
    pub fn is_waiting_in_array(&self) -> (r: bool)
        ensures
            r == self@.waits_in_array(),
    {
        self.array_step.is_some() && same(self.state.as_str(), "PENDING")
    }
}

} // verus!
