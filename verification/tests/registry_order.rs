//! Registry behaviour: submission order, distinct identities, isolation of
//! one job's failure, and the two end-to-end scenarios.

use deployer::job::Termination;
use deployer::output::Channel;
use deployer::output::OutputLine;
use deployer::registry::RegistryState;
use deployer::resolve::deploy_script_name;

#[test]
fn submissions_get_consecutive_distinct_ids() {
    let mut reg = RegistryState::new();
    let a = reg.submit(String::from("one"));
    let b = reg.submit(String::from("two"));
    let c = reg.submit(String::from("one"));
    assert_eq!((a, b, c), (0, 1, 2));
    let views = reg.render();
    assert_eq!(views.len(), 3);
    assert_eq!(views[0].application.as_str(), "one");
    assert_eq!(views[1].application.as_str(), "two");
    assert_eq!(views[2].application.as_str(), "one");
    assert!(views[0].id != views[2].id);
}

#[test]
fn feed_to_unknown_id_changes_nothing() {
    let mut reg = RegistryState::new();
    reg.submit(String::from("app"));
    assert!(!reg.feed(9, Channel::Stdout, b"x\n"));
    let views = reg.render();
    assert!(views[0].output.is_empty());
}

#[test]
fn feed_after_finish_is_refused() {
    let mut reg = RegistryState::new();
    let id = reg.submit(String::from("app"));
    assert!(reg.finish(id, Termination::Exited(0)));
    assert!(!reg.feed(id, Channel::Stdout, b"late\n"));
    assert!(!reg.finish(id, Termination::Exited(1)));
    let views = reg.render();
    assert!(views[0].output.is_empty());
    assert_eq!(views[0].summary.as_str(), "Exit code: 0");
}

#[test]
fn deploy_of_foo_shows_line_and_exit_code() {
    let mut reg = RegistryState::new();
    let id = reg.submit(String::from("foo"));
    assert!(reg.feed(id, Channel::Stdout, b"line1\n"));
    assert!(reg.finish(id, Termination::Exited(0)));
    let views = reg.render();
    assert_eq!(views.len(), 1);
    assert_eq!(views[0].application.as_str(), "foo");
    assert_eq!(views[0].summary.as_str(), "Exit code: 0");
    assert_eq!(views[0].output.len(), 1);
    assert!(matches!(&views[0].output[0], OutputLine::Stdout(t) if t == "line1"));
}

#[test]
fn missing_executable_finalizes_without_touching_others() {
    let mut reg = RegistryState::new();
    let running = reg.submit(String::from("healthy"));
    let bar = reg.submit(String::from("bar"));
    assert!(reg.finish(
        bar,
        Termination::SpawnFailed(String::from("No such file or directory"))
    ));
    let views = reg.render();
    assert_eq!(views[1].summary.as_str(), "Exit code: 255");
    assert_eq!(views[1].output.len(), 1);
    assert!(matches!(&views[1].output[0], OutputLine::Stderr(t) if !t.is_empty()));
    // The other job is untouched and still running.
    assert_eq!(views[running as usize].summary.as_str(), "Running...");
    assert!(views[running as usize].output.is_empty());
}

#[test]
fn renders_are_point_in_time_copies() {
    let mut reg = RegistryState::new();
    let id = reg.submit(String::from("app"));
    let before = reg.render();
    assert!(reg.feed(id, Channel::Stdout, b"new\n"));
    assert!(before[0].output.is_empty());
    let after = reg.render();
    assert_eq!(after[0].output.len(), 1);
}

#[test]
fn script_name_follows_the_convention() {
    assert_eq!(deploy_script_name("foo").as_str(), "foo.deploy");
    assert_eq!(deploy_script_name("").as_str(), ".deploy");
}
