//! One tracked run of a deploy script.
//!
//! A [`Job`] carries its identity, the application being deployed, and a
//! mutable result record: the merged, tagged output collected so far and the
//! terminal status. While the process runs the status is absent; exactly one
//! call to [`Job::finish`] records it, mapping a normal exit to its code and
//! every abnormal end — death by signal, a failed spawn, a failed wait — to
//! the sentinel failure code together with a diagnostic line. The job's
//! well-formedness ties the result record to the bytes fed from each stream,
//! so any observer of a well-formed job sees per-stream output that is
//! complete and in write order.

use crate::lines::all_lines;
use crate::lines::join_lines;
use crate::lines::LineSplitter;
use crate::output::channel_texts;
use crate::output::decode_lines;
use crate::output::decoded_texts;
use crate::output::lemma_channel_texts_concat;
use crate::output::lemma_channel_texts_uniform;
use crate::output::lemma_decoded_texts_concat;
use crate::output::other_channel;
use crate::output::Channel;
use crate::output::OutputLine;
use crate::render::status_summary;
use crate::render::summary_chars;
use vstd::prelude::*;
use vstd::string::StringExecFns;

verus! {

/// Status recorded when the true exit code is unavailable: the process died
/// by a signal, could not be spawned, or could not be waited on.
pub const FAILURE_STATUS: i32 = 255;

/// How a job's process came to an end.
pub enum Termination {
    /// The process exited normally with this code.
    Exited(i32),
    /// The process was killed by a signal and reported no exit code.
    Signaled,
    /// The process could not be started; the text describes the error.
    SpawnFailed(String),
    /// The process could not be reaped; the text describes the error.
    WaitFailed(String),
}

impl Termination {
    /// The status a job records for this end: the exit code of a normal
    /// exit, the sentinel failure code for every abnormal end.
    pub open spec fn status(self) -> i32 {
        match self {
            Termination::Exited(code) => code,
            Termination::Signaled => FAILURE_STATUS,
            Termination::SpawnFailed(_) => FAILURE_STATUS,
            Termination::WaitFailed(_) => FAILURE_STATUS,
        }
    }

    /// The diagnostic text recorded for this end, if any: a normal exit adds
    /// none, every abnormal end adds one line.
    pub open spec fn diagnostic(self) -> Option<Seq<char>> {
        match self {
            Termination::Exited(_) => Option::None,
            Termination::Signaled => Option::Some(
                "Error: the process was terminated by a signal"@,
            ),
            Termination::SpawnFailed(text) => Option::Some("Error: "@ + text@),
            Termination::WaitFailed(text) => Option::Some("Error: "@ + text@),
        }
    }
}

/// A normal exit records exactly its code and no diagnostic; every abnormal
/// end records the sentinel failure code and a non-empty diagnostic.
pub proof fn lemma_termination_mapping(how: Termination)
    ensures
        how matches Termination::Exited(code) ==> how.status() == code && how.diagnostic()
            is None,
        !(how matches Termination::Exited(_)) ==> how.status() == FAILURE_STATUS
            && how.diagnostic() is Some && how.diagnostic()->0.len() > 0,
{
    reveal_strlit("Error: the process was terminated by a signal");
    reveal_strlit("Error: ");
}

/// The texts the finalizer has added to the stderr stream: none while the
/// job runs or after a clean exit, the one diagnostic otherwise.
pub open spec fn diag_texts(outcome: Option<Termination>) -> Seq<Seq<char>> {
    match outcome {
        Option::None => Seq::empty(),
        Option::Some(how) => match how.diagnostic() {
            Option::None => Seq::empty(),
            Option::Some(text) => seq![text],
        },
    }
}

/// The mutable record of one job: the merged tagged output collected so far,
/// and the terminal status once the process has ended.
pub struct JobResult {
    /// Tagged lines, in arrival order across both streams; append-only.
    pub output: Vec<OutputLine>,
    /// Absent while the process runs; the recorded status once it ended.
    pub status: Option<i32>,
}

impl JobResult {
    /// True while no terminal status has been recorded.
    pub open spec fn running(self) -> bool {
        self.status is None
    }

    /// An empty record: no output, no status.
    pub fn new() -> (r: JobResult)
        ensures
            r.output@ == Seq::<OutputLine>::empty(),
            r.running(),
    {
        JobResult { output: Vec::new(), status: Option::None }
    }

    /// True while no terminal status has been recorded.
    pub fn is_running(&self) -> (r: bool)
        ensures
            r == self.running(),
    {
        self.status.is_none()
    }

    /// Appends merged lines; the status is untouched and stays absent.
    pub fn append_lines(&mut self, tagged: Vec<OutputLine>)
        requires
            old(self).running(),
        ensures
            final(self).status == old(self).status,
            final(self).output@ == old(self).output@ + tagged@,
    {
        let mut more = tagged;
        self.output.append(&mut more);
    }

    /// Records the terminal status, exactly once: the exit code of a normal
    /// exit, the sentinel failure code plus one stderr diagnostic line for
    /// an abnormal end.
    pub fn finalize(&mut self, how: Termination)
        requires
            old(self).running(),
        ensures
            final(self).status == Option::Some(how.status()),
            how.diagnostic() is None ==> final(self).output@ == old(self).output@,
            how.diagnostic() matches Option::Some(text) ==> final(self).output@.len()
                == old(self).output@.len() + 1
                && final(self).output@.drop_last() == old(self).output@
                && final(self).output@.last().channel() == Channel::Stderr
                && final(self).output@.last().text() == text,
    {
        match how {
            Termination::Exited(code) => {
                self.status = Option::Some(code);
            },
            Termination::Signaled => {
                let text = String::from_str("Error: the process was terminated by a signal");
                self.output.push(OutputLine::Stderr(text));
                self.status = Option::Some(FAILURE_STATUS);
                proof {
                    assert(self.output@.drop_last() =~= old(self).output@);
                }
            },
            Termination::SpawnFailed(text) => {
                let mut line = String::from_str("Error: ");
                line.append(text.as_str());
                self.output.push(OutputLine::Stderr(line));
                self.status = Option::Some(FAILURE_STATUS);
                proof {
                    assert(self.output@.drop_last() =~= old(self).output@);
                }
            },
            Termination::WaitFailed(text) => {
                let mut line = String::from_str("Error: ");
                line.append(text.as_str());
                self.output.push(OutputLine::Stderr(line));
                self.status = Option::Some(FAILURE_STATUS);
                proof {
                    assert(self.output@.drop_last() =~= old(self).output@);
                }
            },
        }
    }

    /// The textual summary of this record's state.
    pub fn summary(&self) -> (r: String)
        ensures
            r@ == summary_chars(self.status),
    {
        status_summary(&self.status)
    }
}

/// One tracked run of a deploy script.
pub struct Job {
    /// Process-unique identifier, fixed once the job is registered.
    pub id: u64,
    /// The application being deployed.
    pub application: String,
    /// Reassembles the chunks read from the process's standard output.
    pub stdout_lines: LineSplitter,
    /// Reassembles the chunks read from the process's standard error.
    pub stderr_lines: LineSplitter,
    /// The observable record: merged output and terminal status.
    pub result: JobResult,
    /// How the process ended, if it has.
    pub outcome: Ghost<Option<Termination>>,
}

impl Job {
    /// The splitter that reassembles the given stream.
    pub open spec fn splitter(self, c: Channel) -> LineSplitter {
        match c {
            Channel::Stdout => self.stdout_lines,
            Channel::Stderr => self.stderr_lines,
        }
    }

    /// The job's invariant. The status is absent exactly until the process
    /// ended and then equals the mapped termination status; the stdout
    /// projection of the merged output is exactly the decoded complete lines
    /// fed from standard output; the stderr projection is the same for
    /// standard error, followed only by the finalizer's diagnostic.
    pub open spec fn wf(self) -> bool {
        &&& self.stdout_lines.wf()
        &&& self.stderr_lines.wf()
        &&& self.result.status == (match self.outcome@ {
            Option::None => Option::<i32>::None,
            Option::Some(how) => Option::Some(how.status()),
        })
        &&& channel_texts(self.result.output@, Channel::Stdout) == decoded_texts(
            self.stdout_lines.complete@,
        )
        &&& channel_texts(self.result.output@, Channel::Stderr) == decoded_texts(
            self.stderr_lines.complete@,
        ) + diag_texts(self.outcome@)
    }

    /// A fresh job for `application`: empty record, nothing fed, running.
    pub fn new(application: String) -> (r: Job)
        ensures
            r.wf(),
            r.id == 0,
            r.application == application,
            r.result.running(),
            r.result.output@ == Seq::<OutputLine>::empty(),
            r.stdout_lines.history@ == Seq::<u8>::empty(),
            r.stderr_lines.history@ == Seq::<u8>::empty(),
            r.outcome@ == Option::<Termination>::None,
    {
        let r = Job {
            id: 0,
            application,
            stdout_lines: LineSplitter::new(),
            stderr_lines: LineSplitter::new(),
            result: JobResult::new(),
            outcome: Ghost(Option::None),
        };
        proof {
            assert(channel_texts(r.result.output@, Channel::Stdout) =~~= decoded_texts(
                r.stdout_lines.complete@,
            ));
            assert(channel_texts(r.result.output@, Channel::Stderr) =~~= decoded_texts(
                r.stderr_lines.complete@,
            ) + diag_texts(r.outcome@));
        }
        r
    }

    /// Feeds one chunk read from the given stream: every line the chunk
    /// completes is decoded and appended to the merged output, tagged with
    /// the stream; the unterminated tail stays buffered.
    pub fn feed_chunk(&mut self, channel: Channel, chunk: &[u8])
        requires
            old(self).wf(),
            old(self).result.running(),
        ensures
            final(self).wf(),
            final(self).result.running(),
            final(self).id == old(self).id,
            final(self).application == old(self).application,
            final(self).outcome@ == old(self).outcome@,
            final(self).splitter(channel).history@ == old(self).splitter(channel).history@
                + chunk@,
            final(self).splitter(other_channel(channel)) == old(self).splitter(
                other_channel(channel),
            ),
            old(self).result.output@.is_prefix_of(final(self).result.output@),
            forall|i: int|
                old(self).result.output@.len() <= i < final(self).result.output@.len() ==> (
                #[trigger] final(self).result.output@[i]).channel() == channel,
    {
        let ghost pre = *self;
        let raw = match channel {
            Channel::Stdout => self.stdout_lines.feed(chunk),
            Channel::Stderr => self.stderr_lines.feed(chunk),
        };
        let tagged = decode_lines(channel, &raw);
        let ghost tagged_view = tagged@;
        self.result.append_lines(tagged);
        proof {
            lemma_decoded_texts_concat(pre.splitter(channel).complete@, raw.deep_view());
            lemma_channel_texts_concat(pre.result.output@, tagged_view, Channel::Stdout);
            lemma_channel_texts_concat(pre.result.output@, tagged_view, Channel::Stderr);
            lemma_channel_texts_uniform(tagged_view, channel, other_channel(channel));
            assert(channel_texts(self.result.output@, channel) =~~= decoded_texts(
                self.splitter(channel).complete@,
            ));
            assert(channel_texts(self.result.output@, other_channel(channel)) =~~= channel_texts(
                pre.result.output@,
                other_channel(channel),
            ));
            assert(pre.result.output@.is_prefix_of(self.result.output@)) by {
                assert(self.result.output@.take(pre.result.output@.len() as int)
                    =~= pre.result.output@);
            }
        }
    }

    /// Ends the job: records the mapped terminal status, and for an abnormal
    /// end appends the diagnostic line to the stderr stream of the output.
    pub fn finish(&mut self, how: Termination)
        requires
            old(self).wf(),
            old(self).result.running(),
        ensures
            final(self).wf(),
            final(self).result.status == Option::Some(how.status()),
            final(self).outcome@ == Option::Some(how),
            final(self).id == old(self).id,
            final(self).application == old(self).application,
            final(self).stdout_lines == old(self).stdout_lines,
            final(self).stderr_lines == old(self).stderr_lines,
            how.diagnostic() is None ==> final(self).result.output@ == old(self).result.output@,
            how.diagnostic() matches Option::Some(text) ==> final(self).result.output@.drop_last()
                == old(self).result.output@ && final(self).result.output@.last().text() == text
                && final(self).result.output@.last().channel() == Channel::Stderr,
    {
        self.outcome = Ghost(Option::Some(how));
        self.result.finalize(how);
        proof {
            if how.diagnostic() is Some {
                let text = how.diagnostic()->0;
                let out_pre = old(self).result.output@;
                let out_now = self.result.output@;
                assert(out_now.drop_last() == out_pre);
                assert(channel_texts(out_now, Channel::Stderr) == channel_texts(
                    out_pre,
                    Channel::Stderr,
                ).push(text));
                assert(channel_texts(out_now, Channel::Stderr) =~~= decoded_texts(
                    self.stderr_lines.complete@,
                ) + diag_texts(self.outcome@));
                assert(channel_texts(out_now, Channel::Stdout) == channel_texts(
                    out_pre,
                    Channel::Stdout,
                ));
            } else {
                assert(diag_texts(self.outcome@) =~~= diag_texts(old(self).outcome@));
                assert(decoded_texts(self.stderr_lines.complete@) + diag_texts(self.outcome@)
                    =~~= channel_texts(self.result.output@, Channel::Stderr));
            }
        }
    }
}

/// The terminal status is absent exactly until the process has ended, and
/// from then on is exactly the mapped termination status — never anything
/// earlier or different.
pub proof fn lemma_status_lifecycle(j: Job)
    requires
        j.wf(),
    ensures
        j.outcome@ is None <==> j.result.running(),
        j.outcome@ matches Option::Some(how) ==> j.result.status == Option::Some(how.status()),
{
}

/// Per-stream delivery: once the bytes fed from a stream are exactly a
/// sequence of terminated lines, the job's merged output carries, for that
/// stream, exactly the decodable ones of those lines, once each, in write
/// order — on stderr followed only by the finalizer's diagnostic. Nothing is
/// lost, duplicated or reordered within a stream.
pub proof fn lemma_stream_delivery(j: Job, c: Channel, ls: Seq<Seq<u8>>)
    requires
        j.wf(),
        all_lines(ls),
        j.splitter(c).history@ == join_lines(ls),
    ensures
        c == Channel::Stdout ==> channel_texts(j.result.output@, c) == decoded_texts(ls),
        c == Channel::Stderr ==> channel_texts(j.result.output@, c) == decoded_texts(ls)
            + diag_texts(j.outcome@),
{
    crate::lines::lemma_no_loss(j.splitter(c), ls);
}

} // verus!
