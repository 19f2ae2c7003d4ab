//! Job lifecycle: status mapping, diagnostics, summaries, stream merging.

use deployer::job::Job;
use deployer::job::JobResult;
use deployer::job::Termination;
use deployer::output::Channel;
use deployer::output::OutputLine;
use deployer::render::int_string;

#[test]
fn fresh_result_is_running() {
    let r = JobResult::new();
    assert!(r.is_running());
    assert!(r.output.is_empty());
    assert_eq!(r.summary().as_str(), "Running...");
}

#[test]
fn normal_exit_records_its_code() {
    let mut r = JobResult::new();
    r.finalize(Termination::Exited(0));
    assert_eq!(r.status, Some(0));
    assert!(r.output.is_empty());
    assert_eq!(r.summary().as_str(), "Exit code: 0");
}

#[test]
fn nonzero_exit_codes_render_in_decimal() {
    let mut r = JobResult::new();
    r.finalize(Termination::Exited(137));
    assert_eq!(r.status, Some(137));
    assert_eq!(r.summary().as_str(), "Exit code: 137");
}

#[test]
fn signal_death_maps_to_sentinel_with_diagnostic() {
    let mut r = JobResult::new();
    r.finalize(Termination::Signaled);
    assert_eq!(r.status, Some(255));
    assert_eq!(r.output.len(), 1);
    let line = &r.output[0];
    assert_eq!(line.channel_of(), Channel::Stderr);
    assert!(!line.text_str().is_empty());
    assert_eq!(r.summary().as_str(), "Exit code: 255");
}

#[test]
fn spawn_failure_maps_to_sentinel_with_diagnostic() {
    let mut r = JobResult::new();
    r.finalize(Termination::SpawnFailed(String::from("No such file or directory")));
    assert_eq!(r.status, Some(255));
    assert_eq!(r.output.len(), 1);
    assert!(matches!(
        &r.output[0],
        OutputLine::Stderr(t) if t == "Error: No such file or directory"
    ));
}

#[test]
fn wait_failure_maps_to_sentinel_with_diagnostic() {
    let mut r = JobResult::new();
    r.finalize(Termination::WaitFailed(String::from("interrupted")));
    assert_eq!(r.status, Some(255));
    assert_eq!(r.output.len(), 1);
    assert_eq!(r.output[0].text_str(), "Error: interrupted");
}

#[test]
fn decimal_rendering_is_exact() {
    assert_eq!(int_string(0).as_str(), "0");
    assert_eq!(int_string(7).as_str(), "7");
    assert_eq!(int_string(255).as_str(), "255");
    assert_eq!(int_string(1000).as_str(), "1000");
    assert_eq!(int_string(-12).as_str(), "-12");
    assert_eq!(int_string(i64::MIN).as_str(), "-9223372036854775808");
}

#[test]
fn job_collects_stream_lines_in_write_order() {
    let mut job = Job::new(String::from("foo"));
    job.feed_chunk(Channel::Stdout, b"line1\n");
    job.finish(Termination::Exited(0));
    assert_eq!(job.result.status, Some(0));
    assert_eq!(job.result.output.len(), 1);
    assert!(matches!(&job.result.output[0], OutputLine::Stdout(t) if t == "line1"));
}

#[test]
fn job_merges_streams_in_arrival_order() {
    let mut job = Job::new(String::from("foo"));
    job.feed_chunk(Channel::Stdout, b"a\n");
    job.feed_chunk(Channel::Stderr, b"e\n");
    job.feed_chunk(Channel::Stdout, b"b\n");
    let texts: Vec<(Channel, String)> = job
        .result
        .output
        .iter()
        .map(|l| (l.channel_of(), l.text_str().to_string()))
        .collect();
    assert_eq!(
        texts,
        vec![
            (Channel::Stdout, String::from("a")),
            (Channel::Stderr, String::from("e")),
            (Channel::Stdout, String::from("b")),
        ]
    );
}

#[test]
fn job_reassembles_lines_cut_across_chunks() {
    let mut job = Job::new(String::from("foo"));
    job.feed_chunk(Channel::Stdout, b"pa");
    assert!(job.result.output.is_empty());
    job.feed_chunk(Channel::Stdout, b"rt\nres");
    assert_eq!(job.result.output.len(), 1);
    assert_eq!(job.result.output[0].text_str(), "part");
    job.feed_chunk(Channel::Stdout, b"t\n");
    assert_eq!(job.result.output.len(), 2);
    assert_eq!(job.result.output[1].text_str(), "rest");
}

#[test]
fn job_drops_undecodable_line_and_keeps_the_rest() {
    let mut job = Job::new(String::from("foo"));
    job.feed_chunk(Channel::Stdout, &[0xff, 0xfe, b'\n', b'o', b'k', b'\n']);
    assert_eq!(job.result.output.len(), 1);
    assert_eq!(job.result.output[0].text_str(), "ok");
}

#[test]
fn large_stderr_with_no_stdout_completes() {
    // One stream may carry far more than a pipe buffer while the other stays
    // silent; the record accepts it all and still finalizes.
    let mut job = Job::new(String::from("chatty"));
    let chunk = [b'e'; 1024];
    for _ in 0..128 {
        job.feed_chunk(Channel::Stderr, &chunk);
        job.feed_chunk(Channel::Stderr, b"\n");
    }
    job.finish(Termination::Exited(0));
    assert_eq!(job.result.output.len(), 128);
    assert_eq!(job.result.status, Some(0));
    assert!(job
        .result
        .output
        .iter()
        .all(|l| l.channel_of() == Channel::Stderr && l.text_str().len() == 1024));
}

#[test]
fn status_stays_absent_until_finish() {
    let mut job = Job::new(String::from("slow"));
    job.feed_chunk(Channel::Stdout, b"working\n");
    assert_eq!(job.result.status, None);
    assert_eq!(job.result.summary().as_str(), "Running...");
    job.finish(Termination::Exited(3));
    assert_eq!(job.result.status, Some(3));
}
