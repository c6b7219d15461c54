use load_rs::{LoadTestRun, LoadTestRunner};

fn drive(requests: u32, concurrency: u32, output_dir: Option<String>, succeed: bool) -> (LoadTestRun, Vec<Option<String>>) {
    let mut run = LoadTestRun::new(requests, concurrency, output_dir);
    let mut in_flight: Vec<u64> = Vec::new();
    let mut files = Vec::new();
    let mut clock = 0;
    loop {
        while let Some(i) = run.next_request() {
            in_flight.push(i);
            assert!(run.in_flight() <= concurrency);
        }
        if run.is_done() {
            break;
        }
        // Finish the most recently started request first, so that completion
        // order differs from submission order.
        let i = in_flight.pop().unwrap();
        clock += 10;
        files.push(run.complete(i, None, succeed, 5 + i, clock));
    }
    (run, files)
}

#[test]
fn dispatch_is_bounded_by_concurrency() {
    let mut run = LoadTestRun::new(5, 2, None);
    assert_eq!(run.next_request(), Some(0));
    assert_eq!(run.next_request(), Some(1));
    assert_eq!(run.next_request(), None);
    assert_eq!(run.in_flight(), 2);
    run.complete(1, None, true, 3, 1);
    assert_eq!(run.next_request(), Some(2));
    assert_eq!(run.next_request(), None);
    run.complete(0, None, true, 4, 2);
    run.complete(2, None, true, 5, 3);
    assert_eq!(run.next_request(), Some(3));
    assert_eq!(run.next_request(), Some(4));
    assert_eq!(run.next_request(), None);
    assert_eq!(run.started(), 5);
    assert!(!run.is_done());
    run.complete(4, None, true, 6, 4);
    run.complete(3, None, true, 7, 5);
    assert!(run.is_done());
    assert_eq!(run.next_request(), None);
}

#[test]
fn succeeding_endpoint_counts_every_request_as_success() {
    for (n, c) in [(1, 1), (5, 2), (10, 10), (17, 3)] {
        let (run, files) = drive(n, c, None, true);
        assert!(files.iter().all(|f| f.is_none()));
        let result = run.finish(1000);
        assert_eq!(result.success, n);
        assert_eq!(result.failures, 0);
        assert_eq!(result.completed, n);
        assert_eq!(result.durations.len(), n as usize);
    }
}

#[test]
fn failing_endpoint_counts_every_request_as_failure() {
    let (run, _) = drive(7, 3, None, false);
    let result = run.finish(1000);
    assert_eq!(result.failures, 7);
    assert_eq!(result.success, 0);
    assert_eq!(result.completed, 7);
    assert_eq!(result.avg, 0);
    assert_eq!(result.p50, 0);
}

#[test]
fn failing_run_names_one_failure_file_per_request() {
    let (_, files) = drive(3, 2, Some("/tmp/load-rs/lib2".to_string()), false);
    let mut files: Vec<String> = files.into_iter().map(|f| f.unwrap()).collect();
    files.sort();
    assert_eq!(
        files,
        vec![
            "/tmp/load-rs/lib2/failure-1.json",
            "/tmp/load-rs/lib2/failure-2.json",
            "/tmp/load-rs/lib2/failure-3.json",
        ]
    );
    assert!(files.iter().all(|f| !f.contains("success")));
}

#[test]
fn complete_names_file_with_label() {
    let mut run = LoadTestRun::new(3, 2, Some("/tmp/load-rs/lib3".to_string()));
    let i = run.next_request().unwrap();
    let file = run.complete(i, Some("test1".to_string()), true, 12, 1);
    assert_eq!(file.as_deref(), Some("/tmp/load-rs/lib3/success-1-test1.json"));
}

#[test]
fn finished_run_averages_over_all_requests() {
    let mut run = LoadTestRun::new(4, 4, None);
    for _ in 0..4 {
        run.next_request();
    }
    run.complete(0, None, true, 100, 1);
    assert_eq!(run.result().avg, 100);
    run.complete(1, None, false, 0, 2);
    assert_eq!(run.result().avg, 50);
    run.complete(2, None, true, 200, 3);
    run.complete(3, None, false, 0, 4);
    assert_eq!(run.result().avg, 75);
    let result = run.finish(5);
    assert_eq!(result.avg, 75);
    assert_eq!(result.total_duration, 300);
    assert_eq!(result.min, 100);
    assert_eq!(result.max, 200);
    assert_eq!(result.p50, 200);
}

#[test]
fn runner_starts_a_run() {
    let runner = LoadTestRunner::new("http://localhost:8080", 3, 3, &None, &None, &None).unwrap();
    let mut run = runner.start(None);
    assert_eq!(run.next_request(), Some(0));
    assert_eq!(run.next_request(), Some(1));
    assert_eq!(run.next_request(), Some(2));
    assert_eq!(run.next_request(), None);
}

#[test]
fn finished_run_reports_sorted_durations() {
    let mut run = LoadTestRun::new(3, 3, None);
    for _ in 0..3 {
        run.next_request();
    }
    run.complete(2, None, true, 30, 1);
    run.complete(0, None, true, 10, 2);
    run.complete(1, None, true, 20, 3);
    assert_eq!(run.result().durations, vec![30, 10, 20]);
    let result = run.finish(4);
    assert_eq!(result.durations, vec![10, 20, 30]);
    assert_eq!(result.p50, 20);
}

#[test]
fn completion_is_tracked_per_request() {
    let mut run = LoadTestRun::new(2, 2, None);
    assert_eq!(run.next_request(), Some(0));
    assert_eq!(run.next_request(), Some(1));
    assert!(!run.is_completed(0));
    assert!(!run.is_completed(1));
    run.complete(1, None, false, 0, 1);
    assert!(run.is_completed(1));
    assert!(!run.is_completed(0));
}
