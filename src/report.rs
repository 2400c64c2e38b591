use vstd::prelude::*;

use crate::browser::BrowserType;
use crate::environments::launch_failures;
use crate::errors::{error_list_text, ErrorList, FailedToInitialize, FailedToOpenPage};
use crate::outcome::TestResult;
use crate::text::{decimal, to_decimal};

verus! {

/// Why a run ended without a report of its tests.
pub enum RunError {
    /// Some engines could not be brought up; no test ran.
    Initialization(ErrorList<FailedToInitialize>),
    /// Some cells could not be set up; their outcomes are not reported.
    Setup(ErrorList<FailedToOpenPage>),
}

/// A whole run: an outcome for every cell, or why there is none.
pub type RunResult = Result<Vec<TestResult>, RunError>;

/// How many of `results` succeeded.
pub open spec fn successes(results: Seq<TestResult>) -> nat
    decreases results.len(),
{
    if results.len() == 0 {
        0
    } else {
        successes(results.drop_last()) + if results.last().succeeded() {
            1nat
        } else {
            0nat
        }
    }
}

proof fn lemma_successes_bounded(results: Seq<TestResult>)
    ensures
        successes(results) <= results.len(),
    decreases results.len(),
{
    if results.len() > 0 {
        lemma_successes_bounded(results.drop_last());
    }
}

/// The process exit status of a run: 0 where every cell set up and every
/// test succeeded, 1 otherwise.
pub open spec fn exit_status(run: &RunResult) -> i32 {
    match run {
        Ok(results) => if successes(results@) == results@.len() {
            0
        } else {
            1
        },
        Err(_) => 1,
    }
}

pub fn count_successes(results: &Vec<TestResult>) -> (r: usize)
    ensures
        r == successes(results@),
{
    let mut n: usize = 0;
    let mut i: usize = 0;
    while i < results.len()
        invariant
            i <= results@.len(),
            n == successes(results@.subrange(0, i as int)),
            n <= i,
        decreases results@.len() - i,
    {
        assert(results@.subrange(0, i + 1).drop_last() =~= results@.subrange(0, i as int));
        if results[i].is_success() {
            n = n + 1;
        }
        i = i + 1;
    }
    assert(results@.subrange(0, i as int) =~= results@);
    n
}

pub fn exit_code(run: &RunResult) -> (r: i32)
    ensures
        r == exit_status(run),
{
    match run {
        Ok(results) => if count_successes(results) == results.len() {
            0
        } else {
            1
        },
        Err(_) => 1,
    }
}

/// The closing line of a report: how many succeeded where all did, else
/// how many failed.
pub open spec fn summary_text(results: Seq<TestResult>) -> Seq<char> {
    if successes(results) == results.len() {
        decimal(successes(results)) + " tests ran with success"@
    } else {
        decimal((results.len() - successes(results)) as nat) + " errors"@
    }
}

pub fn summary_line(results: &Vec<TestResult>) -> (r: String)
    ensures
        r@ == summary_text(results@),
{
    let n = count_successes(results);
    proof {
        lemma_successes_bounded(results@);
    }
    if n == results.len() {
        let mut r = to_decimal(n);
        r.append(" tests ran with success");
        r
    } else {
        let mut r = to_decimal(results.len() - n);
        r.append(" errors");
        r
    }
}

/// One line for each outcome, in order.
pub open spec fn outcome_lines(results: Seq<TestResult>) -> Seq<char>
    decreases results.len(),
{
    if results.len() == 0 {
        Seq::empty()
    } else {
        outcome_lines(results.drop_last()) + results.last().text() + "\n"@
    }
}

/// The text printed at the end of a run.
pub open spec fn report_text(run: &RunResult) -> Seq<char> {
    match run {
        Ok(results) => "\nSummary:\n"@ + outcome_lines(results@) + summary_text(results@) + "\n"@,
        Err(RunError::Initialization(l)) => error_list_text(l@) + "\n"@,
        Err(RunError::Setup(l)) => error_list_text(l@) + "\n"@,
    }
}

/// Renders the end of a run: every outcome and the summary, or the list
/// of failures that stopped the run.
pub fn render_report(run: &RunResult) -> (r: String)
    ensures
        r@ == report_text(run),
{
    match run {
        Ok(results) => {
            let mut r = String::from_str("\nSummary:\n");
            let mut i: usize = 0;
            while i < results.len()
                invariant
                    i <= results@.len(),
                    r@ == "\nSummary:\n"@ + outcome_lines(results@.subrange(0, i as int)),
                decreases results@.len() - i,
            {
                let ghost before = r@;
                let line = results[i].render();
                r.append(line.as_str());
                r.append("\n");
                assert(results@.subrange(0, i + 1).drop_last() =~= results@.subrange(0, i as int));
                assert(r@ =~= before + results@[i as int].text() + "\n"@);
                i = i + 1;
            }
            assert(results@.subrange(0, i as int) =~= results@);
            let summary = summary_line(results);
            r.append(summary.as_str());
            r.append("\n");
            r
        },
        Err(RunError::Initialization(l)) => {
            let mut r = l.render();
            r.append("\n");
            r
        },
        Err(RunError::Setup(l)) => {
            let mut r = l.render();
            r.append("\n");
            r
        },
    }
}

/// How many of the attempts to bring up an engine failed.
pub open spec fn count_failed<E>(attempts: Seq<(BrowserType, Result<E, String>)>) -> nat {
    attempts.filter(|a: (BrowserType, Result<E, String>)| a.1 is Err).len()
}

/// Where k engines of those tried fail to come up, with k at least one,
/// the run ends in an error list of exactly k entries, one per failed
/// engine, with no outcome and exit status 1.
pub proof fn lemma_failed_bring_up_is_fatal<E>(
    attempts: Seq<(BrowserType, Result<E, String>)>,
    errors: ErrorList<FailedToInitialize>,
)
    requires
        count_failed(attempts) >= 1,
        errors@ == launch_failures(attempts),
    ensures
        errors@.len() == count_failed(attempts),
        exit_status(&Err(RunError::Initialization(errors))) == 1,
{
    lemma_failures_counted(attempts);
}

proof fn lemma_failures_counted<E>(attempts: Seq<(BrowserType, Result<E, String>)>)
    ensures
        launch_failures(attempts).len() == count_failed(attempts),
    decreases attempts.len(),
{
    reveal(Seq::filter);
    if attempts.len() > 0 {
        lemma_failures_counted(attempts.drop_last());
    }
}

} // verus!
