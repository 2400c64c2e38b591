use vstd::prelude::*;

use crate::browser::{browser_name, BrowserType};
use crate::errors::{panic_message, CaughtPanic, FailedToOpenPage};
use crate::text::{indent, indented};

verus! {

/// Diagnostic text written by one test run. Every run writes into a buffer
/// of its own, so nothing that a sibling run writes can reach it.
pub struct CaptureBuffer {
    text: String,
}

impl View for CaptureBuffer {
    type V = Seq<char>;

    closed spec fn view(&self) -> Seq<char> {
        self.text@
    }
}

impl CaptureBuffer {
    pub fn new() -> (r: CaptureBuffer)
        ensures
            r@ == Seq::<char>::empty(),
    {
        CaptureBuffer { text: String::new() }
    }

    /// Appends `s` to what was written so far.
    pub fn write(&mut self, s: &str)
        ensures
            final(self)@ == old(self)@ + s@,
    {
        self.text.append(s);
    }

    pub fn contents(&self) -> (r: &str)
        ensures
            r@ == self@,
    {
        self.text.as_str()
    }

    /// Ends the capture and hands back all that was written.
    pub fn take(self) -> (r: String)
        ensures
            r@ == self@,
    {
        self.text
    }
}

/// The outcome of one test in one engine: the test's result, with an error
/// text where it failed, and what the test wrote while it ran.
#[derive(Debug)]
pub struct TestResult {
    pub test_name: String,
    pub browser_type: BrowserType,
    pub result: Result<(), String>,
    pub output: String,
}

/// How a test body ended.
#[derive(Debug)]
pub enum BodyEnd {
    /// It returned, with success or with a reported error.
    Returned(Result<(), String>),
    /// It aborted, and the abort was caught at the run's boundary.
    Aborted(CaughtPanic),
}

/// How one cell of the run ended.
#[derive(Debug)]
pub enum CellEnd {
    /// No fresh page could be had for the test; the error text.
    SetupFailed(String),
    /// The test body ran; how it ended and what it wrote.
    Ran { end: BodyEnd, output: String },
}

/// A cell's outcome, or the failure to set it up with its error text.
pub type CellResult = Result<TestResult, (FailedToOpenPage, String)>;

/// The result that a body's end stands for in the report: an abort is a
/// failure like a reported error, with the abort's message.
pub open spec fn body_result(end: BodyEnd) -> Result<(), Seq<char>> {
    match end {
        BodyEnd::Returned(Ok(())) => Ok(()),
        BodyEnd::Returned(Err(e)) => Err(e@),
        BodyEnd::Aborted(p) => Err(panic_message(p.0)),
    }
}

pub open spec fn result_view(r: Result<(), String>) -> Result<(), Seq<char>> {
    match r {
        Ok(()) => Ok(()),
        Err(e) => Err(e@),
    }
}

/// What resolving a cell yields, over views: for a setup failure its context
/// and error, else the outcome's name, engine, result and output.
pub open spec fn resolves_to(
    test_name: Seq<char>,
    browser_type: BrowserType,
    end: CellEnd,
    r: CellResult,
) -> bool {
    match end {
        CellEnd::SetupFailed(e) => r is Err && r->Err_0.0.test_name@ == test_name
            && r->Err_0.0.browser_type == browser_type && r->Err_0.1@ == e@,
        CellEnd::Ran { end, output } => r is Ok && r->Ok_0.test_name@ == test_name
            && r->Ok_0.browser_type == browser_type && result_view(r->Ok_0.result)
            == body_result(end) && r->Ok_0.output@ == output@,
    }
}

/// Turns how a cell ended into its outcome, or into a setup failure where
/// no page could be had for it.
pub fn resolve_cell(test_name: String, browser_type: BrowserType, end: CellEnd) -> (r:
    CellResult)
    ensures
        resolves_to(test_name@, browser_type, end, r),
{
    match end {
        CellEnd::SetupFailed(e) => Err((FailedToOpenPage { test_name, browser_type }, e)),
        CellEnd::Ran { end, output } => {
            let result = match end {
                BodyEnd::Returned(r) => r,
                BodyEnd::Aborted(p) => Err(p.message()),
            };
            Ok(TestResult { test_name, browser_type, result, output })
        },
    }
}

/// The report text of one outcome.
pub open spec fn outcome_text(
    test_name: Seq<char>,
    browser_type: BrowserType,
    result: Result<(), Seq<char>>,
    output: Seq<char>,
) -> Seq<char> {
    let head = test_name + " in "@ + browser_name(browser_type) + "...\t"@;
    let line = match result {
        Ok(()) => head + "[OK]"@,
        Err(e) => head + "[FAILED]\n"@ + e,
    };
    if output.len() == 0 {
        line
    } else {
        line + "\n"@ + indented(output)
    }
}

impl TestResult {
    pub open spec fn text(&self) -> Seq<char> {
        outcome_text(self.test_name@, self.browser_type, result_view(self.result), self.output@)
    }

    pub open spec fn succeeded(&self) -> bool {
        self.result is Ok
    }

    pub fn is_success(&self) -> (r: bool)
        ensures
            r == self.succeeded(),
    {
        self.result.is_ok()
    }

    /// One report line: the test, the engine and a pass or fail mark, the
    /// error on failure, and beneath it, indented, what the test wrote.
    pub fn render(&self) -> (r: String)
        ensures
            r@ == self.text(),
    {
        let mut r = self.test_name.clone();
        r.append(" in ");
        r.append(self.browser_type.name());
        r.append("...\t");
        match &self.result {
            Ok(()) => r.append("[OK]"),
            Err(e) => {
                r.append("[FAILED]\n");
                r.append(e.as_str());
            },
        }
        if self.output.unicode_len() > 0 {
            r.append("\n");
            let block = indent(self.output.as_str());
            r.append(block.as_str());
        }
        r
    }
}

} // verus!
