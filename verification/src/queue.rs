//! The queue of conversion jobs.
use std::collections::VecDeque;
use vstd::prelude::*;
use crate::errors::ConversionErrorView;
use crate::models::{ConversionError, ConversionJob, ConversionRequest, JobStatus, Timestamp};
use crate::text::{copy_opt, opt_view};

verus! {

/// The value of a [`ConversionJob`].
pub struct JobView {
    pub id: uuid::Uuid,
    pub input_path: Seq<char>,
    pub output_path: Option<Seq<char>>,
    pub source_format: Option<Seq<char>>,
    pub target_format: Seq<char>,
    pub preset_id: Option<Seq<char>>,
    pub status: JobStatus,
    pub current_step: Option<Seq<char>>,
    pub error: Option<ConversionErrorView>,
    pub created_at: Timestamp,
    pub started_at: Option<Timestamp>,
    pub completed_at: Option<Timestamp>,
}

impl View for ConversionJob {
    type V = JobView;

    open spec fn view(&self) -> JobView {
        JobView {
            id: self.id,
            input_path: self.input_path@,
            output_path: opt_view(self.output_path),
            source_format: opt_view(self.source_format),
            target_format: self.target_format@,
            preset_id: opt_view(self.preset_id),
            status: self.status,
            current_step: opt_view(self.current_step),
            error: match self.error {
                Some(e) => Some(e@),
                None => None,
            },
            created_at: self.created_at,
            started_at: self.started_at,
            completed_at: self.completed_at,
        }
    }
}

/// The values of a sequence of jobs.
pub open spec fn jobs_view(v: Seq<ConversionJob>) -> Seq<JobView> {
    Seq::new(v.len(), |i: int| v[i]@)
}

/// A copy of an error.
fn copy_error(e: &ConversionError) -> (res: ConversionError)
    ensures
        res@ == e@,
{
    ConversionError {
        code: e.code.clone(),
        message: e.message.clone(),
        technical_details: copy_opt(&e.technical_details),
        recoverable: e.recoverable,
    }
}

impl ConversionJob {
    /// A copy of the job.
    pub fn duplicate(&self) -> (res: ConversionJob)
        ensures
            res@ == self@,
    {
        ConversionJob {
            id: self.id.clone(),
            input_path: self.input_path.clone(),
            output_path: copy_opt(&self.output_path),
            source_format: copy_opt(&self.source_format),
            target_format: self.target_format.clone(),
            preset_id: copy_opt(&self.preset_id),
            status: self.status,
            current_step: copy_opt(&self.current_step),
            error: match &self.error {
                Some(e) => Some(copy_error(e)),
                None => None,
            },
            created_at: self.created_at,
            started_at: self.started_at,
            completed_at: self.completed_at,
        }
    }
}

/// The jobs waiting to be converted, in the order they were added.
pub struct QueueState {
    jobs: VecDeque<ConversionJob>,
}

impl View for QueueState {
    type V = Seq<JobView>;

    closed spec fn view(&self) -> Seq<JobView> {
        jobs_view(self.jobs@)
    }
}

impl QueueState {
    /// An empty queue.
    pub fn new() -> (res: QueueState)
        ensures
            res@ == Seq::<JobView>::empty(),
    {
        let q = QueueState { jobs: VecDeque::new() };
        assert(q@ =~= Seq::<JobView>::empty());
        q
    }

    /// Adds a pending job for an input and returns it: the given identifier
    /// (a fresh one, drawn by the caller) and creation time, no output,
    /// source format, step, error, start or completion yet. The queue is what
    /// it was, followed by the job.
    pub fn add_job(
        &mut self,
        id: uuid::Uuid,
        created_at: Timestamp,
        input_path: String,
        target_format: String,
        preset_id: Option<String>,
    ) -> (res: ConversionJob)
        ensures
            res@.id == id,
            res@.created_at == created_at,
            res@.input_path == input_path@,
            res@.target_format == target_format@,
            res@.preset_id == opt_view(preset_id),
            res@.status == JobStatus::Pending,
            res@.output_path is None && res@.source_format is None,
            res@.current_step is None && res@.error is None,
            res@.started_at is None && res@.completed_at is None,
            final(self)@ == old(self)@.push(res@),
    {
        let job = ConversionJob {
            id,
            input_path,
            output_path: None,
            source_format: None,
            target_format,
            preset_id,
            status: JobStatus::Pending,
            current_step: None,
            error: None,
            created_at,
            started_at: None,
            completed_at: None,
        };
        let stored = job.duplicate();
        self.jobs.push_back(stored);
        assert(self@ =~= old(self)@.push(job@));
        job
    }

    /// Adds a pending job for each input of a request, in input order, each
    /// with the request's target format and preset, the identifier given for
    /// it (`ids[i]` for the `i`-th input) and the creation time, and no
    /// output, source format, step, error, start or completion yet; returns
    /// them.
    pub fn queue_request(&mut self, request: &ConversionRequest, ids: &Vec<uuid::Uuid>, created_at: Timestamp) -> (res: Vec<ConversionJob>)
        requires
            ids@.len() == request.input_paths@.len(),
        ensures
            res@.len() == request.input_paths@.len(),
            final(self)@ == old(self)@ + jobs_view(res@),
            forall|i: int| 0 <= i < res@.len() ==> {
                &&& (#[trigger] res@[i])@.id == ids@[i]
                &&& res@[i]@.created_at == created_at
                &&& res@[i]@.input_path == request.input_paths@[i]@
                &&& res@[i]@.target_format == request.target_format@
                &&& res@[i]@.preset_id == opt_view(request.preset_id)
                &&& res@[i]@.status == JobStatus::Pending
                &&& res@[i]@.output_path is None && res@[i]@.source_format is None
                &&& res@[i]@.current_step is None && res@[i]@.error is None
                &&& res@[i]@.started_at is None && res@[i]@.completed_at is None
            },
    {
        let mut jobs: Vec<ConversionJob> = Vec::new();
        let mut i: usize = 0;
        assert(old(self)@ + jobs_view(jobs@) =~= old(self)@);
        while i < request.input_paths.len()
            invariant
                i <= request.input_paths@.len(),
                jobs@.len() == i,
                self@ == old(self)@ + jobs_view(jobs@),
                ids@.len() == request.input_paths@.len(),
                forall|k: int| 0 <= k < jobs@.len() ==> {
                    &&& (#[trigger] jobs@[k])@.id == ids@[k]
                    &&& jobs@[k]@.created_at == created_at
                    &&& jobs@[k]@.input_path == request.input_paths@[k]@
                    &&& jobs@[k]@.target_format == request.target_format@
                    &&& jobs@[k]@.preset_id == opt_view(request.preset_id)
                    &&& jobs@[k]@.status == JobStatus::Pending
                    &&& jobs@[k]@.output_path is None && jobs@[k]@.source_format is None
                    &&& jobs@[k]@.current_step is None && jobs@[k]@.error is None
                    &&& jobs@[k]@.started_at is None && jobs@[k]@.completed_at is None
                },
            decreases request.input_paths@.len() - i,
        {
            let job = self.add_job(
                ids[i],
                created_at,
                request.input_paths[i].clone(),
                request.target_format.clone(),
                copy_opt(&request.preset_id),
            );
            let ghost before = jobs_view(jobs@);
            jobs.push(job);
            assert(jobs_view(jobs@) =~= before.push(jobs@[i as int]@));
            assert(self@ =~= old(self)@ + jobs_view(jobs@));
            i = i + 1;
        }
        jobs
    }

    /// The queued jobs, in the order they were added.
    pub fn list_jobs(&self) -> (res: Vec<ConversionJob>)
        ensures
            jobs_view(res@) == self@,
    {
        let mut out: Vec<ConversionJob> = Vec::new();
        let mut i: usize = 0;
        while i < self.jobs.len()
            invariant
                i <= self.jobs@.len(),
                jobs_view(out@) == jobs_view(self.jobs@).take(i as int),
            decreases self.jobs@.len() - i,
        {
            let ghost prev = jobs_view(out@);
            let copy = self.jobs[i].duplicate();
            assert(copy@ == jobs_view(self.jobs@)[i as int]);
            out.push(copy);
            assert(jobs_view(out@) =~= prev.push(copy@));
            assert(jobs_view(self.jobs@).take(i + 1) =~= jobs_view(self.jobs@).take(i as int).push(jobs_view(self.jobs@)[i as int]));
            assert(jobs_view(out@) =~= jobs_view(self.jobs@).take(i + 1));
            i = i + 1;
        }
        assert(jobs_view(self.jobs@).take(self.jobs@.len() as int) =~= jobs_view(self.jobs@));
        out
    }
}

} // verus!
