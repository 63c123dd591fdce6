use std::sync::{Arc, Mutex};

use pg_dispatcher::{
    CommandRunner, DispatchEnd, Dispatcher, ExitError, NotificationSource, RunError,
};

/// A source that yields a pre-defined list of payloads.
struct MockNotificationSource {
    payloads: Vec<String>,
    index: usize,
}

impl MockNotificationSource {
    fn new(payloads: Vec<String>) -> Self {
        Self { payloads, index: 0 }
    }
}

impl NotificationSource for MockNotificationSource {
    fn next_payload(&mut self) -> Option<String> {
        if self.index < self.payloads.len() {
            let payload = self.payloads[self.index].clone();
            self.index += 1;
            Some(payload)
        } else {
            None
        }
    }
}

/// A runner that records every payload it receives.
#[derive(Default, Clone)]
struct MockCommandRunner {
    invocations: Arc<Mutex<Vec<String>>>,
}

impl CommandRunner for MockCommandRunner {
    fn run(&mut self, payload: &str) -> Result<(), RunError> {
        self.invocations.lock().unwrap().push(payload.to_string());
        Ok(())
    }
}

/// A runner that fails on its Nth invocation.
#[derive(Clone)]
struct FailingCommandRunner {
    invocations: Arc<Mutex<Vec<String>>>,
    fail_on: usize,
}

impl FailingCommandRunner {
    fn new(fail_on: usize) -> Self {
        Self {
            invocations: Arc::new(Mutex::new(vec![])),
            fail_on,
        }
    }
}

impl CommandRunner for FailingCommandRunner {
    fn run(&mut self, payload: &str) -> Result<(), RunError> {
        let count = {
            let mut inv = self.invocations.lock().unwrap();
            inv.push(payload.to_string());
            inv.len()
        };
        if count == self.fail_on {
            Err(RunError::Exit(ExitError { code: Some(1) }))
        } else {
            Ok(())
        }
    }
}

#[test]
fn dispatcher_dispatches_all_payloads() {
    let source = MockNotificationSource::new(vec!["hello".into(), "world".into(), "third".into()]);
    let runner = MockCommandRunner::default();
    let invocations = runner.invocations.clone();
    let mut dispatcher = Dispatcher::new(runner);

    let mut source = source;
    dispatcher.run(&mut source);

    assert_eq!(
        invocations.lock().unwrap().clone(),
        vec!["hello", "world", "third"]
    );
}

#[test]
fn dispatcher_empty_source_dispatches_nothing() {
    let source = MockNotificationSource::new(vec![]);
    let runner = MockCommandRunner::default();
    let invocations = Arc::clone(&runner.invocations);
    let mut dispatcher = Dispatcher::new(runner);

    let mut source = source;
    dispatcher.run(&mut source);

    assert!(invocations.lock().unwrap().is_empty());
}

#[test]
fn dispatcher_stops_on_runner_error() {
    let source = MockNotificationSource::new(vec!["first".into(), "second".into(), "third".into()]);
    let runner = FailingCommandRunner::new(2);
    let invocations = Arc::clone(&runner.invocations);
    let mut dispatcher = Dispatcher::new(runner);

    let mut source = source;
    dispatcher.run(&mut source);

    assert_eq!(invocations.lock().unwrap().clone(), vec!["first", "second"]);
}

#[test]
fn dispatcher_single_payload() {
    let source = MockNotificationSource::new(vec!["only".into()]);
    let runner = MockCommandRunner::default();
    let invocations = Arc::clone(&runner.invocations);
    let mut dispatcher = Dispatcher::new(runner);

    let mut source = source;
    dispatcher.run(&mut source);

    assert_eq!(invocations.lock().unwrap().clone(), vec!["only"]);
}

#[test]
fn main_dispatches_all_payloads() {
    let source = MockNotificationSource::new(vec!["hello".into(), "world".into(), "third".into()]);
    let runner = MockCommandRunner::default();
    let invocations = runner.invocations.clone();
    let mut dispatcher = Dispatcher::new(runner);

    let mut source = source;
    dispatcher.run(&mut source);

    assert_eq!(
        invocations.lock().unwrap().clone(),
        vec!["hello", "world", "third"]
    );
}

#[test]
fn main_empty_source_dispatches_nothing() {
    let source = MockNotificationSource::new(vec![]);
    let runner = MockCommandRunner::default();
    let invocations = runner.invocations.clone();
    let mut dispatcher = Dispatcher::new(runner);

    let mut source = source;
    dispatcher.run(&mut source);

    assert!(invocations.lock().unwrap().is_empty());
}

#[test]
fn main_stops_on_runner_error() {
    let source = MockNotificationSource::new(vec!["first".into(), "second".into(), "third".into()]);
    let runner = FailingCommandRunner::new(2);
    let invocations = runner.invocations.clone();
    let mut dispatcher = Dispatcher::new(runner);

    let mut source = source;
    dispatcher.run(&mut source);

    // Should have processed first and second (which failed), then stopped.
    assert_eq!(invocations.lock().unwrap().clone(), vec!["first", "second"]);
}

#[test]
fn main_single_payload() {
    let source = MockNotificationSource::new(vec!["only".into()]);
    let runner = MockCommandRunner::default();
    let invocations = runner.invocations.clone();
    let mut dispatcher = Dispatcher::new(runner);

    let mut source = source;
    dispatcher.run(&mut source);

    assert_eq!(invocations.lock().unwrap().clone(), vec!["only"]);
}

#[test]
fn run_reports_exhausted_source() {
    let mut source = MockNotificationSource::new(vec!["a".into(), "b".into()]);
    let mut dispatcher = Dispatcher::new(MockCommandRunner::default());
    let report = dispatcher.run(&mut source);
    assert!(matches!(report.end, DispatchEnd::SourceExhausted));
    // The source is not polled again after it ran dry.
    assert_eq!(source.index, 2);
}

#[test]
fn run_reports_runner_failure_and_leaves_rest_in_source() {
    let mut source =
        MockNotificationSource::new(vec!["first".into(), "second".into(), "third".into()]);
    let mut dispatcher = Dispatcher::new(FailingCommandRunner::new(1));
    let report = dispatcher.run(&mut source);
    match report.end {
        DispatchEnd::RunnerFailed(RunError::Exit(ExitError { code: Some(1) })) => {}
        other => panic!("unexpected end: {:?}", other),
    }
    assert_eq!(source.index, 1);
}

#[test]
fn run_leaves_payloads_after_a_failure_in_the_source() {
    let mut source =
        MockNotificationSource::new(vec!["first".into(), "second".into(), "third".into()]);
    let mut dispatcher = Dispatcher::new(FailingCommandRunner::new(2));
    dispatcher.run(&mut source);
    assert_eq!(source.next_payload(), Some("third".to_string()));
}
