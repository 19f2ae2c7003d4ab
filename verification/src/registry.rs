//! The append-only collection of all jobs ever submitted.
//!
//! Jobs stand in submission order, oldest first, and are never removed or
//! reordered; a job's identifier is its position, so identifiers are
//! distinct and stable. Re-deploying an application adds a new job and
//! leaves the old ones visible. Rendering produces, for every job, its
//! identity, application, current summary and accumulated output.

use crate::job::Job;
use crate::job::Termination;
use crate::output::copy_lines;
use crate::output::other_channel;
use crate::output::Channel;
use crate::output::OutputLine;
use crate::render::summary_chars;
use vstd::prelude::*;

verus! {

/// What the console shows for one job: a point-in-time copy.
pub struct JobView {
    /// The job's identifier.
    pub id: u64,
    /// The application the job deploys.
    pub application: String,
    /// The job's current summary text.
    pub summary: String,
    /// The merged tagged output collected so far.
    pub output: Vec<OutputLine>,
}

/// `views` is the rendering of `st`: one view per job, in registry order,
/// each carrying the job's identity, application, summary and output.
pub open spec fn renders(st: RegistryState, views: Seq<JobView>) -> bool {
    &&& views.len() == st.jobs@.len()
    &&& forall|i: int|
        0 <= i < views.len() ==> {
            let v = #[trigger] views[i];
            &&& v.id == st.jobs@[i].id
            &&& v.application@ == st.jobs@[i].application@
            &&& v.summary@ == summary_chars(st.jobs@[i].result.status)
            &&& v.output@ == st.jobs@[i].result.output@
        }
}

/// The ordered collection of all jobs ever submitted.
pub struct RegistryState {
    /// All jobs, oldest first; append-only.
    pub jobs: Vec<Job>,
}

impl RegistryState {
    /// Every job is well formed and sits at the position its identifier
    /// names, so identifiers are distinct and never change.
    pub open spec fn wf(self) -> bool {
        forall|i: int|
            0 <= i < self.jobs@.len() ==> (#[trigger] self.jobs@[i]).wf() && self.jobs@[i].id
                == i
    }

    /// An empty registry.
    pub fn new() -> (r: RegistryState)
        ensures
            r.wf(),
            r.jobs@.len() == 0,
    {
        RegistryState { jobs: Vec::new() }
    }

    /// Appends a fresh job for `application` and returns its identifier.
    /// Every job already present is untouched.
    pub fn submit(&mut self, application: String) -> (id: u64)
        requires
            old(self).wf(),
        ensures
            final(self).wf(),
            id == old(self).jobs@.len(),
            final(self).jobs@.len() == old(self).jobs@.len() + 1,
            forall|i: int|
                0 <= i < old(self).jobs@.len() ==> final(self).jobs@[i] == old(self).jobs@[i],
            final(self).jobs@.last().id == id,
            final(self).jobs@.last().application == application,
            final(self).jobs@.last().result.running(),
            final(self).jobs@.last().result.output@ == Seq::<OutputLine>::empty(),
            final(self).jobs@.last().stdout_lines.history@ == Seq::<u8>::empty(),
            final(self).jobs@.last().stderr_lines.history@ == Seq::<u8>::empty(),
    {
        let mut job = Job::new(application);
        let id = self.jobs.len() as u64;
        job.id = id;
        self.jobs.push(job);
        id
    }

    /// Feeds a chunk read from one stream of the job's process. Returns
    /// false — and changes nothing — when no such job exists or the job has
    /// already finished; no other job is ever touched.
    pub fn feed(&mut self, id: u64, channel: Channel, chunk: &[u8]) -> (ok: bool)
        requires
            old(self).wf(),
        ensures
            final(self).wf(),
            ok <==> (id < old(self).jobs@.len() && old(self).jobs@[id as int].result.running()),
            final(self).jobs@.len() == old(self).jobs@.len(),
            forall|i: int|
                0 <= i < old(self).jobs@.len() && i != id ==> final(self).jobs@[i]
                    == old(self).jobs@[i],
            !ok ==> final(self).jobs@ == old(self).jobs@,
            ok ==> ({
                let pre = old(self).jobs@[id as int];
                let post = final(self).jobs@[id as int];
                &&& post.splitter(channel).history@ == pre.splitter(channel).history@ + chunk@
                &&& post.splitter(other_channel(channel)) == pre.splitter(other_channel(channel))
                &&& post.result.running()
                &&& post.id == pre.id
                &&& post.application == pre.application
                &&& pre.result.output@.is_prefix_of(post.result.output@)
                &&& forall|i: int|
                    pre.result.output@.len() <= i < post.result.output@.len() ==> (
                    #[trigger] post.result.output@[i]).channel() == channel
            }),
    {
        if id >= self.jobs.len() as u64 {
            return false;
        }
        let at = id as usize;
        if !self.jobs[at].result.is_running() {
            return false;
        }
        let job = &mut self.jobs[at];
        job.feed_chunk(channel, chunk);
        true
    }

    /// Records how the job's process ended. Returns false — and changes
    /// nothing — when no such job exists or the job has already finished;
    /// no other job is ever touched, so one job's failure never reaches
    /// another.
    pub fn finish(&mut self, id: u64, how: Termination) -> (ok: bool)
        requires
            old(self).wf(),
        ensures
            final(self).wf(),
            ok <==> (id < old(self).jobs@.len() && old(self).jobs@[id as int].result.running()),
            final(self).jobs@.len() == old(self).jobs@.len(),
            forall|i: int|
                0 <= i < old(self).jobs@.len() && i != id ==> final(self).jobs@[i]
                    == old(self).jobs@[i],
            !ok ==> final(self).jobs@ == old(self).jobs@,
            ok ==> ({
                let pre = old(self).jobs@[id as int];
                let post = final(self).jobs@[id as int];
                &&& post.result.status == Option::Some(how.status())
                &&& post.outcome@ == Option::Some(how)
                &&& post.id == pre.id
                &&& post.application == pre.application
                &&& post.stdout_lines == pre.stdout_lines
                &&& post.stderr_lines == pre.stderr_lines
                &&& (how.diagnostic() is None ==> post.result.output@ == pre.result.output@)
                &&& (how.diagnostic() matches Option::Some(text)
                    ==> post.result.output@.drop_last() == pre.result.output@
                        && post.result.output@.last().text() == text
                        && post.result.output@.last().channel() == Channel::Stderr)
            }),
    {
        if id >= self.jobs.len() as u64 {
            return false;
        }
        let at = id as usize;
        if !self.jobs[at].result.is_running() {
            return false;
        }
        let job = &mut self.jobs[at];
        job.finish(how);
        true
    }

    /// Renders every job, in registry order.
    pub fn render(&self) -> (views: Vec<JobView>)
        ensures
            renders(*self, views@),
    {
        let mut views: Vec<JobView> = Vec::new();
        let mut i: usize = 0;
        while i < self.jobs.len()
            invariant
                i <= self.jobs@.len(),
                views@.len() == i,
                forall|k: int|
                    0 <= k < i ==> {
                        let v = #[trigger] views@[k];
                        &&& v.id == self.jobs@[k].id
                        &&& v.application@ == self.jobs@[k].application@
                        &&& v.summary@ == summary_chars(self.jobs@[k].result.status)
                        &&& v.output@ == self.jobs@[k].result.output@
                    },
            decreases self.jobs@.len() - i,
        {
            let job = &self.jobs[i];
            let view = JobView {
                id: job.id,
                application: job.application.clone(),
                summary: job.result.summary(),
                output: copy_lines(&job.result.output),
            };
            views.push(view);
            i = i + 1;
        }
        views
    }
}

/// Distinct identities: two different positions in a well-formed registry
/// always hold jobs with different identifiers, so submissions never
/// overwrite one another.
pub proof fn lemma_distinct_ids(st: RegistryState, i: int, j: int)
    requires
        st.wf(),
        0 <= i < st.jobs@.len(),
        0 <= j < st.jobs@.len(),
        i != j,
    ensures
        st.jobs@[i].id != st.jobs@[j].id,
{
}

/// A rendering of a well-formed registry shows every submitted job, in
/// submission order, under pairwise distinct identifiers.
pub proof fn lemma_render_distinct(st: RegistryState, views: Seq<JobView>, i: int, j: int)
    requires
        st.wf(),
        renders(st, views),
        0 <= i < views.len(),
        0 <= j < views.len(),
        i != j,
    ensures
        views[i].id != views[j].id,
{
}

/// A job that has not finished renders with the running summary.
pub proof fn lemma_running_summary(st: RegistryState, views: Seq<JobView>, i: int)
    requires
        renders(st, views),
        0 <= i < views.len(),
        st.jobs@[i].result.running(),
    ensures
        views[i].summary@ == "Running..."@,
{
}

} // verus!
