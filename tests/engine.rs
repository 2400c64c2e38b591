use e2e::{
    build_matrix, collect_environments, contains, exit_code, indent, render_report,
    resolve_cell, summary_line, to_decimal, BodyEnd, BrowserType, CaptureBuffer, CaughtPanic,
    Cell, CellEnd, Describe, ErrorList, FailedToInitialize, FailedToOpenPage, Method, RunError,
    Scheduler, Step, TestResult,
};

fn ran(result: Result<(), &str>, output: &str) -> CellEnd {
    CellEnd::Ran {
        end: BodyEnd::Returned(result.map_err(|e| e.to_string())),
        output: output.to_string(),
    }
}

fn outcome(name: &str, kind: BrowserType, result: Result<(), &str>, output: &str) -> TestResult {
    resolve_cell(name.to_string(), kind, ran(result, output)).ok().unwrap()
}

/// Runs every cell through the scheduler, completing cells in the order that
/// `order` picks among those running, and ending each as `end_of` says.
fn run_all(
    names: &[&str],
    kinds: &[BrowserType],
    limit: usize,
    end_of: &dyn Fn(&str, BrowserType) -> CellEnd,
    newest_first: bool,
) -> Result<Vec<TestResult>, ErrorList<FailedToOpenPage>> {
    let names_owned: Vec<String> = names.iter().map(|n| n.to_string()).collect();
    let mut s = Scheduler::new(names_owned, kinds.to_vec(), limit);
    let mut running: Vec<(usize, Cell)> = Vec::new();
    loop {
        match s.poll() {
            Step::Start { index, cell } => running.push((index, cell)),
            Step::Wait => {
                let (index, cell) = if newest_first { running.pop().unwrap() } else { running.remove(0) };
                assert!(s.awaiting(index));
                s.complete(index, end_of(names[cell.test], kinds[cell.env]));
                assert!(!s.awaiting(index));
            }
            Step::Done => break,
        }
    }
    assert!(s.is_done());
    s.finish()
}

#[test]
fn every_test_runs_in_every_engine() {
    let kinds = BrowserType::all();
    let names = ["a", "b", "c", "d"];
    let r = run_all(&names, &kinds, 0, &|_, _| ran(Ok(()), ""), false).ok().unwrap();
    assert_eq!(r.len(), 12);
    for n in names {
        for k in &kinds {
            assert_eq!(r.iter().filter(|o| o.test_name == n && o.browser_type == *k).count(), 1);
        }
    }
}

#[test]
fn failed_bring_up_aggregates_every_failure() {
    let attempts: Vec<(BrowserType, Result<u8, String>)> = vec![
        (BrowserType::Chromium, Err("no chromium".to_string())),
        (BrowserType::Firefox, Ok(1)),
        (BrowserType::Webkit, Err("no webkit".to_string())),
    ];
    let errors = collect_environments(attempts).err().unwrap();
    assert_eq!(errors.len(), 2);
    assert_eq!(*errors.context(0), FailedToInitialize(BrowserType::Chromium));
    assert_eq!(errors.error(1), "no webkit");
    let run = Err(RunError::Initialization(errors));
    assert_eq!(exit_code(&run), 1);
    assert_eq!(
        render_report(&run),
        "ErrorList:\n\t- Failed to initialize Chromium: no chromium\n\t- Failed to initialize Webkit: no webkit\n\n"
    );
}

#[test]
fn successful_bring_up_keeps_every_engine_in_order() {
    let attempts: Vec<(BrowserType, Result<u8, String>)> = vec![
        (BrowserType::Chromium, Ok(1)),
        (BrowserType::Firefox, Ok(2)),
        (BrowserType::Webkit, Ok(3)),
    ];
    let envs = collect_environments(attempts).ok().unwrap();
    assert_eq!(
        envs,
        vec![(BrowserType::Chromium, 1), (BrowserType::Firefox, 2), (BrowserType::Webkit, 3)]
    );
}

#[test]
fn silent_success_has_empty_output() {
    let o = outcome("quiet", BrowserType::Firefox, Ok(()), "");
    assert!(o.is_success());
    assert_eq!(o.output.len(), 0);
    assert_eq!(o.render(), "quiet in Firefox...\t[OK]");
}

#[test]
fn captured_output_stays_with_its_run() {
    let mut a = CaptureBuffer::new();
    let mut b = CaptureBuffer::new();
    a.write("first ");
    b.write("other run\n");
    a.write("second");
    b.write("more");
    assert_eq!(a.contents(), "first second");
    let o = resolve_cell(
        "talks".to_string(),
        BrowserType::Webkit,
        CellEnd::Ran { end: BodyEnd::Returned(Ok(())), output: a.take() },
    )
    .ok()
    .unwrap();
    assert!(o.is_success());
    assert_eq!(o.output, "first second");
    assert_eq!(b.take(), "other run\nmore");
    assert_eq!(o.render(), "talks in Webkit...\t[OK]\n\tfirst second");
}

#[test]
fn aborts_become_failures() {
    let text = resolve_cell(
        "boom".to_string(),
        BrowserType::Chromium,
        CellEnd::Ran {
            end: BodyEnd::Aborted(CaughtPanic::new(Some("not implemented".to_string()))),
            output: String::new(),
        },
    )
    .ok()
    .unwrap();
    assert_eq!(text.result, Err("not implemented".to_string()));
    let opaque = resolve_cell(
        "boom".to_string(),
        BrowserType::Chromium,
        CellEnd::Ran { end: BodyEnd::Aborted(CaughtPanic::new(None)), output: String::new() },
    )
    .ok()
    .unwrap();
    assert_eq!(opaque.result, Err("Unknown error".to_string()));
    assert_eq!(CaughtPanic::new(None).message(), "Unknown error");
}

#[test]
fn one_setup_failure_fails_the_run() {
    let kinds = [BrowserType::Chromium, BrowserType::Firefox];
    let names = ["a", "b"];
    let end_of = |n: &str, k: BrowserType| {
        if n == "b" && k == BrowserType::Firefox {
            CellEnd::SetupFailed("closed".to_string())
        } else {
            ran(Ok(()), "")
        }
    };
    let errors = run_all(&names, &kinds, 2, &end_of, true).err().unwrap();
    assert_eq!(errors.len(), 1);
    assert_eq!(errors.context(0).test_name, "b");
    assert_eq!(errors.context(0).describe(), "Failed to open page in Firefox of b");
    let run = Err(RunError::Setup(errors));
    assert_eq!(exit_code(&run), 1);
    assert_eq!(
        render_report(&run),
        "ErrorList:\n\t- Failed to open page in Firefox of b: closed\n\n"
    );
}

#[test]
fn rerun_gives_the_same_outcomes() {
    let kinds = [BrowserType::Chromium, BrowserType::Webkit];
    let names = ["a", "b", "c"];
    let end_of = |n: &str, _k: BrowserType| {
        if n == "b" { ran(Err("bad"), "") } else { ran(Ok(()), "x") }
    };
    let first = run_all(&names, &kinds, 0, &end_of, false).ok().unwrap();
    let second = run_all(&names, &kinds, 2, &end_of, true).ok().unwrap();
    let key = |o: &TestResult| (o.test_name.clone(), o.browser_type.name(), o.result.clone(), o.output.clone());
    let mut a: Vec<_> = first.iter().map(key).collect();
    let mut b: Vec<_> = second.iter().map(key).collect();
    assert_ne!(a, b);
    a.sort();
    b.sort();
    assert_eq!(a, b);
}

#[test]
fn two_tests_two_engines_report() {
    let kinds = [BrowserType::Chromium, BrowserType::Firefox];
    let names = ["A", "B"];
    let end_of = |n: &str, k: BrowserType| {
        if n == "B" && k == BrowserType::Firefox { ran(Err("wrong body"), "") } else { ran(Ok(()), "") }
    };
    let results = run_all(&names, &kinds, 0, &end_of, false).ok().unwrap();
    assert_eq!(summary_line(&results), "1 errors");
    let run = Ok(results);
    assert_eq!(exit_code(&run), 1);
    assert_eq!(
        render_report(&run),
        "\nSummary:\n\
         A in Chromium...\t[OK]\n\
         A in Firefox...\t[OK]\n\
         B in Chromium...\t[OK]\n\
         B in Firefox...\t[FAILED]\nwrong body\n\
         1 errors\n"
    );
}

#[test]
fn all_passing_run_exits_zero() {
    let results = vec![
        outcome("A", BrowserType::Chromium, Ok(()), ""),
        outcome("A", BrowserType::Webkit, Ok(()), ""),
    ];
    assert_eq!(summary_line(&results), "2 tests ran with success");
    assert_eq!(exit_code(&Ok(results)), 0);
    assert_eq!(exit_code(&Ok(Vec::new())), 0);
    assert_eq!(summary_line(&Vec::new()), "0 tests ran with success");
}

#[test]
fn limit_bounds_running_cells() {
    let mut s = Scheduler::new(vec!["a".to_string(), "b".to_string()], BrowserType::all(), 2);
    assert_eq!(s.poll(), Step::Start { index: 0, cell: Cell { test: 0, env: 0 } });
    assert_eq!(s.poll(), Step::Start { index: 1, cell: Cell { test: 0, env: 1 } });
    assert_eq!(s.poll(), Step::Wait);
    s.complete(1, ran(Ok(()), ""));
    assert_eq!(s.poll(), Step::Start { index: 2, cell: Cell { test: 0, env: 2 } });
    assert_eq!(s.poll(), Step::Wait);
    assert!(!s.is_done());
}

#[test]
fn empty_run_is_done_at_once() {
    let mut s = Scheduler::new(Vec::new(), BrowserType::all(), 0);
    assert_eq!(s.poll(), Step::Done);
    assert_eq!(s.finish().ok().unwrap().len(), 0);
}

#[test]
fn matrix_is_test_outer_engine_inner() {
    let m = build_matrix(2, 3);
    assert_eq!(m.len(), 6);
    assert_eq!(m[0], Cell { test: 0, env: 0 });
    assert_eq!(m[4], Cell { test: 1, env: 1 });
    assert_eq!(m[5], Cell { test: 1, env: 2 });
    assert!(build_matrix(0, 3).is_empty());
}

#[test]
fn failed_outcome_with_output_renders_indented() {
    let o = outcome("t", BrowserType::Chromium, Err("E"), "one\ntwo\n");
    assert_eq!(o.render(), "t in Chromium...\t[FAILED]\nE\n\tone\n\ttwo\n");
}

#[test]
fn text_helpers() {
    assert_eq!(to_decimal(0), "0");
    assert_eq!(to_decimal(907), "907");
    assert_eq!(to_decimal(usize::MAX), usize::MAX.to_string());
    assert_eq!(indent(""), "\t");
    assert_eq!(indent("a\nb"), "\ta\n\tb");
    assert_eq!(indent("\n\n"), "\t\n\t\n");
    assert!(contains("Yummy posted cookies", "post"));
    assert!(contains("abc", ""));
    assert!(!contains("po", "post"));
    assert!(!contains("Yummy put cookies", "post"));
}

#[test]
fn error_list_keeps_order() {
    let mut l = ErrorList::new(FailedToInitialize(BrowserType::Webkit), "w".to_string());
    l.push(FailedToInitialize(BrowserType::Chromium), "c".to_string());
    assert_eq!(l.len(), 2);
    assert_eq!(*l.context(1), FailedToInitialize(BrowserType::Chromium));
    assert_eq!(l.render(), "ErrorList:\n\t- Failed to initialize Webkit: w\n\t- Failed to initialize Chromium: c\n");
}

#[test]
fn method_names() {
    assert_eq!(Method::GET.as_str(), "GET");
    assert_eq!(Method::POST.as_str(), "POST");
    assert_eq!(Method::PUT.as_str(), "PUT");
    assert_eq!(Method::PATCH.as_str(), "PATCH");
    assert_eq!(Method::DELETE.as_str(), "DELETE");
    assert_eq!(BrowserType::Webkit.name(), "Webkit");
}
