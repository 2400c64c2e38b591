use vstd::prelude::*;

use crate::browser::{browser_name, BrowserType};

verus! {

/// A context that says which part of a run failed, as text.
pub trait Describe {
    spec fn description(&self) -> Seq<char>;

    fn describe(&self) -> (r: String)
        ensures
            r@ == self.description(),
    ;
}

/// An engine that could not be brought up.
#[derive(Clone, Copy, Debug, PartialEq, Eq, Structural)]
pub struct FailedToInitialize(pub BrowserType);

impl Describe for FailedToInitialize {
    open spec fn description(&self) -> Seq<char> {
        "Failed to initialize "@ + browser_name(self.0)
    }

    fn describe(&self) -> (r: String) {
        let mut r = String::from_str("Failed to initialize ");
        r.append(self.0.name());
        r
    }
}

/// A test whose page could not be opened in an engine.
#[derive(Debug)]
pub struct FailedToOpenPage {
    pub test_name: String,
    pub browser_type: BrowserType,
}

impl Describe for FailedToOpenPage {
    open spec fn description(&self) -> Seq<char> {
        "Failed to open page in "@ + browser_name(self.browser_type) + " of "@ + self.test_name@
    }

    fn describe(&self) -> (r: String) {
        let mut r = String::from_str("Failed to open page in ");
        r.append(self.browser_type.name());
        r.append(" of ");
        r.append(self.test_name.as_str());
        r
    }
}

/// The text of one entry of an error list.
pub open spec fn error_line(context: Seq<char>, error: Seq<char>) -> Seq<char> {
    "\t- "@ + context + ": "@ + error + "\n"@
}

/// The entries of an error list, one line each, in order.
pub open spec fn error_lines<C: Describe>(entries: Seq<(C, Seq<char>)>) -> Seq<char>
    decreases entries.len(),
{
    if entries.len() == 0 {
        Seq::empty()
    } else {
        error_lines(entries.drop_last()) + error_line(
            entries.last().0.description(),
            entries.last().1,
        )
    }
}

/// Independent failures of one run, each with the context it arose in.
/// A list holds at least one entry, and keeps them in the order they came.
pub struct ErrorList<C> {
    vec: Vec<(C, String)>,
}

impl<C> View for ErrorList<C> {
    type V = Seq<(C, Seq<char>)>;

    closed spec fn view(&self) -> Seq<(C, Seq<char>)> {
        self.vec@.map_values(|e: (C, String)| (e.0, e.1@))
    }
}

impl<C> ErrorList<C> {
    /// A list built by `new` and `push` is never empty.
    pub open spec fn wf(&self) -> bool {
        self@.len() > 0
    }

    pub fn new(context: C, error: String) -> (r: Self)
        ensures
            r@ == seq![(context, error@)],
            r.wf(),
    {
        let r = ErrorList { vec: vec![(context, error)] };
        assert(r@ =~= seq![(context, error@)]);
        r
    }

    pub fn push(&mut self, context: C, error: String)
        ensures
            final(self)@ == old(self)@.push((context, error@)),
            final(self).wf(),
    {
        self.vec.push((context, error));
        assert(self@ =~= old(self)@.push((context, error@)));
    }

    pub fn len(&self) -> (r: usize)
        ensures
            r == self@.len(),
    {
        self.vec.len()
    }

    /// The context of the entry at `i`.
    pub fn context(&self, i: usize) -> (r: &C)
        requires
            i < self@.len(),
        ensures
            *r == self@[i as int].0,
    {
        &self.vec[i].0
    }

    /// The error text of the entry at `i`.
    pub fn error(&self, i: usize) -> (r: &str)
        requires
            i < self@.len(),
        ensures
            r@ == self@[i as int].1,
    {
        self.vec[i].1.as_str()
    }
}

/// The text of a whole error list.
pub open spec fn error_list_text<C: Describe>(entries: Seq<(C, Seq<char>)>) -> Seq<char> {
    "ErrorList:\n"@ + error_lines(entries)
}

impl<C: Describe> ErrorList<C> {
    /// Renders the list: a heading, then one line per entry.
    pub fn render(&self) -> (r: String)
        ensures
            r@ == error_list_text(self@),
    {
        let mut r = String::from_str("ErrorList:\n");
        let mut i: usize = 0;
        while i < self.vec.len()
            invariant
                i <= self.vec.len(),
                r@ == "ErrorList:\n"@ + error_lines(self@.subrange(0, i as int)),
            decreases self.vec.len() - i,
        {
            let ghost before = r@;
            let context = self.vec[i].0.describe();
            r.append("\t- ");
            r.append(context.as_str());
            r.append(": ");
            r.append(self.vec[i].1.as_str());
            r.append("\n");
            assert(self@.subrange(0, i + 1).drop_last() =~= self@.subrange(0, i as int));
            assert(r@ =~= before + error_line(self@[i as int].0.description(), self@[i as int].1));
            i = i + 1;
        }
        assert(self@.subrange(0, i as int) =~= self@);
        r
    }
}

/// The fixed message of an abort whose payload was not text.
pub open spec fn unknown_error() -> Seq<char> {
    "Unknown error"@
}

/// What a test body left behind when it aborted: its payload, where that
/// payload was text.
#[derive(Debug)]
pub struct CaughtPanic(pub Option<String>);

/// The message of an abort with the given text payload.
pub open spec fn panic_message(payload: Option<String>) -> Seq<char> {
    match payload {
        Some(s) => s@,
        None => unknown_error(),
    }
}

impl CaughtPanic {
    pub fn new(payload: Option<String>) -> (r: CaughtPanic)
        ensures
            r.0 == payload,
    {
        CaughtPanic(payload)
    }

    /// The payload where it was text, else a fixed "Unknown error".
    pub fn message(&self) -> (r: String)
        ensures
            r@ == panic_message(self.0),
    {
        match &self.0 {
            Some(s) => s.clone(),
            None => String::from_str("Unknown error"),
        }
    }
}

} // verus!
