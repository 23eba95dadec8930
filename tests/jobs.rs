use cfip::artifact::parse_rows;
use cfip::job::{JobOrchestrator, StartAction, Status};
use cfip::runner::{failure_message, tool_outcome};

fn is_processing(o: &JobOrchestrator) -> bool {
    matches!(o.status(), Ok(Status::Processing))
}

#[test]
fn fresh_cell_is_pending() {
    let o = JobOrchestrator::new();
    assert!(matches!(o.status(), Ok(Status::Pending)));
}

#[test]
fn second_start_while_running_launches_nothing() {
    let mut o = JobOrchestrator::new();
    let mut launches = 0;
    for _ in 0..2 {
        if o.start() == StartAction::Launch {
            launches += 1;
        }
    }
    assert_eq!(launches, 1);
    assert!(is_processing(&o));
}

#[test]
fn many_starts_one_run_in_flight() {
    let mut o = JobOrchestrator::new();
    assert_eq!(o.start(), StartAction::Launch);
    for _ in 0..10 {
        assert_eq!(o.start(), StartAction::AlreadyRunning);
    }
    o.finish(Ok(()));
    assert_eq!(o.start(), StartAction::Launch);
    assert_eq!(o.start(), StartAction::AlreadyRunning);
}

#[test]
fn run_settles_in_success_or_failure() {
    let mut o = JobOrchestrator::new();
    o.start();
    o.finish(Ok(()));
    assert!(matches!(o.status(), Ok(Status::Success)));
    o.start();
    o.finish(Err("boom".to_string()));
    assert!(!is_processing(&o));
    assert!(matches!(o.status(), Err(_)));
}

#[test]
fn failed_run_is_reported_verbatim_until_next_start() {
    let mut o = JobOrchestrator::new();
    o.start();
    o.finish(Err("spawn failed: No such file or directory (os error 2)".to_string()));
    for _ in 0..3 {
        match o.status() {
            Err(m) => assert_eq!(m, "spawn failed: No such file or directory (os error 2)"),
            Ok(s) => panic!("expected an error, got {s:?}"),
        }
    }
    assert_eq!(o.start(), StartAction::Launch);
    assert!(is_processing(&o));
}

#[test]
fn scenario_success_then_results() {
    let mut o = JobOrchestrator::new();
    assert_eq!(o.start(), StartAction::Launch);
    assert!(is_processing(&o));
    let outcome = tool_outcome(true, &Vec::new());
    assert!(outcome.is_ok());
    o.finish(outcome);
    assert!(matches!(o.status(), Ok(Status::Success)));
    let rows = parse_rows("ip,latency\n1.1.1.1,23.4\n1.0.0.1,0\n");
    assert_eq!(rows, vec![vec!["1.1.1.1".to_string(), "23.4".to_string()]]);
}

#[test]
fn scenario_tool_failure_message() {
    let mut o = JobOrchestrator::new();
    o.start();
    o.finish(tool_outcome(false, &b"no candidates".to_vec()));
    match o.status() {
        Err(m) => assert_eq!(m, "execute command failed: no candidates"),
        Ok(s) => panic!("expected an error, got {s:?}"),
    }
}

#[test]
fn tool_failure_with_empty_stderr() {
    assert_eq!(
        tool_outcome(false, &Vec::new()),
        Err("execute command failed: ".to_string())
    );
}

#[test]
fn tool_failure_replaces_invalid_utf8() {
    assert_eq!(
        tool_outcome(false, &vec![b'a', 0xff, b'b']),
        Err("execute command failed: a\u{FFFD}b".to_string())
    );
    assert_eq!(
        tool_outcome(false, &"délai".as_bytes().to_vec()),
        Err("execute command failed: délai".to_string())
    );
}

#[test]
fn failure_message_prefix() {
    assert_eq!(failure_message("x"), "execute command failed: x");
}

#[test]
fn snapshot_keeps_message() {
    let s = Status::Failed("m".to_string());
    assert!(matches!(s.snapshot(), Status::Failed(m) if m == "m"));
}
