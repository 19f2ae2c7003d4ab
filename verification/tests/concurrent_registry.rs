//! The shared registry under concurrent use: parallel submissions all
//! register, stay distinct, and snapshots remain readable throughout.

use std::sync::Arc;

use deployer::job::Termination;
use deployer::output::Channel;
use deployer::output::OutputLine;
use deployer::service::Registry;

#[test]
fn concurrent_submissions_produce_distinct_visible_jobs() {
    let registry = Arc::new(Registry::new());
    let runtime = tokio::runtime::Builder::new_multi_thread()
        .worker_threads(8)
        .build()
        .unwrap();
    let n: usize = 32;
    runtime.block_on(async {
        let mut handles = Vec::new();
        for k in 0..n {
            let shared = registry.clone();
            handles.push(tokio::spawn(async move {
                let id = shared.submit(String::from("same-app"));
                assert!(shared.feed(id, Channel::Stdout, format!("from {}\n", k).as_bytes()));
                assert!(shared.finish(id, Termination::Exited(0)));
                id
            }));
        }
        let mut ids = Vec::new();
        for h in handles {
            ids.push(h.await.unwrap());
        }
        ids.sort_unstable();
        ids.dedup();
        assert_eq!(ids.len(), n);
    });
    let views = registry.list_jobs();
    assert_eq!(views.len(), n);
    for v in &views {
        assert_eq!(v.application.as_str(), "same-app");
        assert_eq!(v.summary.as_str(), "Exit code: 0");
        assert_eq!(v.output.len(), 1);
        assert!(matches!(&v.output[0], OutputLine::Stdout(t) if t.starts_with("from ")));
    }
    let mut ids: Vec<u64> = views.iter().map(|v| v.id).collect();
    ids.sort_unstable();
    ids.dedup();
    assert_eq!(ids.len(), n);
}

#[test]
fn snapshots_interleave_with_writers() {
    let registry = Arc::new(Registry::new());
    let runtime = tokio::runtime::Builder::new_multi_thread()
        .worker_threads(4)
        .build()
        .unwrap();
    runtime.block_on(async {
        let writer = {
            let shared = registry.clone();
            tokio::spawn(async move {
                for _ in 0..50 {
                    let id = shared.submit(String::from("busy"));
                    shared.feed(id, Channel::Stderr, b"warn\n");
                    shared.finish(id, Termination::Exited(1));
                }
            })
        };
        let reader = {
            let shared = registry.clone();
            tokio::spawn(async move {
                for _ in 0..50 {
                    for view in shared.list_jobs() {
                        let s = view.summary.as_str();
                        assert!(s == "Running..." || s == "Exit code: 1");
                    }
                }
            })
        };
        writer.await.unwrap();
        reader.await.unwrap();
    });
    assert_eq!(registry.list_jobs().len(), 50);
}

#[test]
fn submit_returns_before_any_deploy_work() {
    // Submission only registers: the job is visible and running until a
    // runner reports otherwise.
    let registry = Registry::new();
    let id = registry.submit(String::from("foo"));
    let views = registry.list_jobs();
    assert_eq!(views.len(), 1);
    assert_eq!(views[0].id, id);
    assert_eq!(views[0].summary.as_str(), "Running...");
}
