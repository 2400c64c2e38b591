use vstd::prelude::*;

use crate::browser::BrowserType;
use crate::errors::{ErrorList, FailedToOpenPage};
use crate::matrix::{build_matrix, is_matrix, Cell};
use crate::outcome::{resolve_cell, resolves_to, CellEnd, CellResult, TestResult};

verus! {

broadcast use vstd::seq_lib::group_to_multiset_ensures;

/// The outcomes among `arrivals`, in the order they arrived.
pub open spec fn outcomes_of(arrivals: Seq<CellResult>) -> Seq<TestResult>
    decreases arrivals.len(),
{
    if arrivals.len() == 0 {
        Seq::empty()
    } else {
        match arrivals.last() {
            Ok(o) => outcomes_of(arrivals.drop_last()).push(o),
            Err(_) => outcomes_of(arrivals.drop_last()),
        }
    }
}

/// The setup failures among `arrivals`, in the order they arrived.
pub open spec fn failures_of(arrivals: Seq<CellResult>) -> Seq<(FailedToOpenPage, String)>
    decreases arrivals.len(),
{
    if arrivals.len() == 0 {
        Seq::empty()
    } else {
        match arrivals.last() {
            Ok(_) => failures_of(arrivals.drop_last()),
            Err(f) => failures_of(arrivals.drop_last()).push(f),
        }
    }
}

/// A setup failure as an error list holds it.
pub open spec fn failure_view(f: (FailedToOpenPage, String)) -> (FailedToOpenPage, Seq<char>) {
    (f.0, f.1@)
}

/// Setup failures as an error list holds them.
pub open spec fn failure_views(s: Seq<(FailedToOpenPage, String)>) -> Seq<(FailedToOpenPage, Seq<char>)> {
    s.map_values(|f: (FailedToOpenPage, String)| failure_view(f))
}

/// What a run comes to: all its outcomes where no cell failed to set up,
/// else all its setup failures.
pub open spec fn run_verdict(arrivals: Seq<CellResult>) -> Result<
    Seq<TestResult>,
    Seq<(FailedToOpenPage, String)>,
> {
    if failures_of(arrivals).len() == 0 {
        Ok(outcomes_of(arrivals))
    } else {
        Err(failures_of(arrivals))
    }
}

/// Every arrival is an outcome or a setup failure, never both.
pub proof fn lemma_each_arrival_counted_once(arrivals: Seq<CellResult>)
    ensures
        outcomes_of(arrivals).len() + failures_of(arrivals).len() == arrivals.len(),
    decreases arrivals.len(),
{
    if arrivals.len() > 0 {
        lemma_each_arrival_counted_once(arrivals.drop_last());
    }
}

proof fn lemma_outcome_counts(arrivals: Seq<CellResult>, o: TestResult)
    ensures
        outcomes_of(arrivals).to_multiset().count(o) == arrivals.to_multiset().count(Ok(o)),
    decreases arrivals.len(),
{
    if arrivals.len() > 0 {
        let rest = arrivals.drop_last();
        lemma_outcome_counts(rest, o);
        assert(arrivals =~= rest.push(arrivals.last()));
        match arrivals.last() {
            Ok(p) => {
                assert(outcomes_of(arrivals) == outcomes_of(rest).push(p));
            },
            Err(_) => {},
        }
    }
}

proof fn lemma_failure_counts(arrivals: Seq<CellResult>, f: (FailedToOpenPage, String))
    ensures
        failures_of(arrivals).to_multiset().count(f) == arrivals.to_multiset().count(Err(f)),
    decreases arrivals.len(),
{
    if arrivals.len() > 0 {
        let rest = arrivals.drop_last();
        lemma_failure_counts(rest, f);
        assert(arrivals =~= rest.push(arrivals.last()));
        match arrivals.last() {
            Ok(_) => {},
            Err(g) => {
                assert(failures_of(arrivals) == failures_of(rest).push(g));
            },
        }
    }
}

/// The order in which cells complete does not matter: two runs whose cells
/// arrive as the same results in any two orders end with the same outcomes,
/// the same setup failures, and the same verdict.
pub proof fn lemma_arrival_order_irrelevant(a: Seq<CellResult>, b: Seq<CellResult>)
    requires
        a.to_multiset() == b.to_multiset(),
    ensures
        outcomes_of(a).to_multiset() == outcomes_of(b).to_multiset(),
        failures_of(a).to_multiset() == failures_of(b).to_multiset(),
        run_verdict(a) is Ok <==> run_verdict(b) is Ok,
{
    assert forall|o: TestResult| #[trigger]
        outcomes_of(a).to_multiset().count(o) == outcomes_of(b).to_multiset().count(o) by {
        lemma_outcome_counts(a, o);
        lemma_outcome_counts(b, o);
    }
    assert forall|f: (FailedToOpenPage, String)| #[trigger]
        failures_of(a).to_multiset().count(f) == failures_of(b).to_multiset().count(f) by {
        lemma_failure_counts(a, f);
        lemma_failure_counts(b, f);
    }
    assert(outcomes_of(a).to_multiset() =~= outcomes_of(b).to_multiset());
    assert(failures_of(a).to_multiset() =~= failures_of(b).to_multiset());
    assert(failures_of(a).len() == failures_of(a).to_multiset().len());
    assert(failures_of(b).len() == failures_of(b).to_multiset().len());
}

/// One cell that fails to set up fails the whole run, however the other
/// cells fared.
pub proof fn lemma_setup_failure_fails_run(arrivals: Seq<CellResult>, i: int)
    requires
        0 <= i < arrivals.len(),
        arrivals[i] is Err,
    ensures
        run_verdict(arrivals) is Err,
        failures_of(arrivals).len() > 0,
    decreases arrivals.len(),
{
    if i < arrivals.len() - 1 {
        lemma_setup_failure_fails_run(arrivals.drop_last(), i);
    }
}

/// Where every cell set up, every arrival is an outcome: the verdict holds
/// one outcome for each.
pub proof fn lemma_clean_run_keeps_all(arrivals: Seq<CellResult>)
    requires
        forall|i: int| 0 <= i < arrivals.len() ==> #[trigger] arrivals[i] is Ok,
    ensures
        run_verdict(arrivals) is Ok,
        run_verdict(arrivals)->Ok_0.len() == arrivals.len(),
    decreases arrivals.len(),
{
    if arrivals.len() > 0 {
        lemma_clean_run_keeps_all(arrivals.drop_last());
    }
    lemma_each_arrival_counted_once(arrivals);
}

/// Distinct positions below `n` that leave out `x` are fewer than `n`.
proof fn lemma_distinct_positions_bound(s: Seq<int>, n: int, x: int)
    requires
        0 <= x < n,
        forall|j: int| 0 <= j < s.len() ==> 0 <= #[trigger] s[j] < n && s[j] != x,
        forall|j1: int, j2: int| 0 <= j1 < j2 < s.len() ==> #[trigger] s[j1] != #[trigger] s[j2],
    ensures
        s.len() < n,
{
    assert(s.no_duplicates()) by {
        assert forall|i: int, j: int|
            0 <= i < s.len() && 0 <= j < s.len() && i != j implies s[i] != s[j] by {
            if i > j {
                assert(s[j] != s[i]);
            }
        }
    }
    s.unique_seq_to_set();
    let range = vstd::set_lib::set_int_range(0, n);
    vstd::set_lib::lemma_int_range(0, n);
    assert(s.to_set().subset_of(range.remove(x)));
    vstd::set_lib::lemma_len_subset(s.to_set(), range.remove(x));
}

/// What the runner should do next.
#[derive(Clone, Copy, Debug, PartialEq, Eq, Structural)]
pub enum Step {
    /// Run this cell, whose position in the matrix is `index`.
    Start { index: usize, cell: Cell },
    /// Wait until some running cell completes.
    Wait,
    /// Every cell has completed.
    Done,
}

/// The decisions of a run: which cell to start while fewer than `limit` are
/// running, and the fold of each completed cell into the outcomes and setup
/// failures so far, in the order the cells complete.
pub struct Scheduler {
    test_names: Vec<String>,
    kinds: Vec<BrowserType>,
    cells: Vec<Cell>,
    limit: usize,
    started: usize,
    running: usize,
    finished: Vec<bool>,
    outcomes: Vec<TestResult>,
    failures: Option<ErrorList<FailedToOpenPage>>,
    arrivals: Ghost<Seq<CellResult>>,
    sources: Ghost<Seq<int>>,
}

impl Scheduler {
    pub closed spec fn test_names(&self) -> Seq<Seq<char>> {
        self.test_names@.map_values(|n: String| n@)
    }

    pub closed spec fn kinds(&self) -> Seq<BrowserType> {
        self.kinds@
    }

    pub closed spec fn cells(&self) -> Seq<Cell> {
        self.cells@
    }

    /// How many cells may run at once.
    pub closed spec fn limit(&self) -> nat {
        self.limit as nat
    }

    /// How many cells were started: those at the positions below.
    pub closed spec fn started(&self) -> nat {
        self.started as nat
    }

    /// How many cells are running now.
    pub closed spec fn running(&self) -> nat {
        self.running as nat
    }

    /// Whether the cell at `index` was started and has not completed.
    pub closed spec fn is_running(&self, index: int) -> bool {
        0 <= index < self.started && !self.finished@[index]
    }

    /// What the completed cells came to, in the order they completed.
    pub closed spec fn arrivals(&self) -> Seq<CellResult> {
        self.arrivals@
    }

    pub closed spec fn wf(&self) -> bool {
        &&& is_matrix(self.cells@, self.test_names@.len(), self.kinds@.len())
        &&& 1 <= self.limit
        &&& self.running <= self.limit
        &&& self.started <= self.cells@.len()
        &&& self.finished@.len() == self.cells@.len()
        &&& self.sources@.len() == self.arrivals@.len()
        &&& self.running + self.arrivals@.len() == self.started
        &&& forall|k: int| 0 <= k < self.finished@.len() && self.finished@[k] ==> k < self.started
        &&& forall|j: int|
            0 <= j < self.sources@.len() ==> {
                &&& 0 <= #[trigger] self.sources@[j] < self.started
                &&& self.finished@[self.sources@[j]]
                &&& self.arrival_matches(j, self.cells@[self.sources@[j]])
            }
        &&& forall|j1: int, j2: int|
            0 <= j1 < j2 < self.sources@.len() ==> #[trigger] self.sources@[j1]
                != #[trigger] self.sources@[j2]
        &&& self.outcomes@ == outcomes_of(self.arrivals@)
        &&& match self.failures {
            None => failures_of(self.arrivals@).len() == 0,
            Some(l) => l@ == failure_views(failures_of(self.arrivals@)) && l.wf(),
        }
    }

    /// The arrival at `j` is named after the test and engine of `cell`.
    closed spec fn arrival_matches(&self, j: int, cell: Cell) -> bool {
        match self.arrivals@[j] {
            Ok(o) => o.test_name@ == self.test_names@[cell.test as int]@ && o.browser_type
                == self.kinds@[cell.env as int],
            Err(f) => f.0.test_name@ == self.test_names@[cell.test as int]@ && f.0.browser_type
                == self.kinds@[cell.env as int],
        }
    }

    /// Plans a run of every test in every engine, with at most `limit` cells
    /// running at once; a `limit` of 0 lets every cell run at once.
    pub fn new(test_names: Vec<String>, kinds: Vec<BrowserType>, limit: usize) -> (r: Scheduler)
        requires
            test_names@.len() * kinds@.len() <= usize::MAX,
        ensures
            r.wf(),
            r.test_names() == test_names@.map_values(|n: String| n@),
            r.kinds() == kinds@,
            is_matrix(r.cells(), test_names@.len(), kinds@.len()),
            r.limit() == if limit == 0 {
                if r.cells().len() == 0 { 1 } else { r.cells().len() }
            } else {
                limit as nat
            },
            r.started() == 0,
            r.running() == 0,
            r.arrivals() == Seq::<CellResult>::empty(),
    {
        let cells = build_matrix(test_names.len(), kinds.len());
        let n = cells.len();
        let limit = if limit == 0 {
            if n == 0 { 1 } else { n }
        } else {
            limit
        };
        let mut finished: Vec<bool> = Vec::new();
        let mut k: usize = 0;
        while k < n
            invariant
                k <= n,
                finished@.len() == k,
                forall|i: int| 0 <= i < k ==> !#[trigger] finished@[i],
            decreases n - k,
        {
            finished.push(false);
            k = k + 1;
        }
        Scheduler {
            test_names,
            kinds,
            cells,
            limit,
            started: 0,
            running: 0,
            finished,
            outcomes: Vec::new(),
            failures: None,
            arrivals: Ghost(Seq::empty()),
            sources: Ghost(Seq::empty()),
        }
    }

    /// Starts the next cell where the bound allows it; else says whether to
    /// wait for a running cell or that all are done.
    pub fn poll(&mut self) -> (r: Step)
        requires
            old(self).wf(),
        ensures
            final(self).wf(),
            final(self).test_names() == old(self).test_names(),
            final(self).kinds() == old(self).kinds(),
            final(self).cells() == old(self).cells(),
            final(self).limit() == old(self).limit(),
            final(self).arrivals() == old(self).arrivals(),
            match r {
                Step::Start { index, cell } => {
                    &&& old(self).started() < old(self).cells().len()
                    &&& old(self).running() < old(self).limit()
                    &&& index == old(self).started()
                    &&& cell == old(self).cells()[index as int]
                    &&& final(self).started() == old(self).started() + 1
                    &&& final(self).running() == old(self).running() + 1
                    &&& final(self).is_running(index as int)
                    &&& forall|i: int| #[trigger]
                        final(self).is_running(i) == (old(self).is_running(i) || i == index)
                },
                Step::Wait => {
                    &&& old(self).running() > 0
                    &&& (old(self).started() == old(self).cells().len() || old(self).running()
                        == old(self).limit())
                    &&& *final(self) == *old(self)
                },
                Step::Done => {
                    &&& old(self).started() == old(self).cells().len()
                    &&& old(self).running() == 0
                    &&& *final(self) == *old(self)
                },
            },
    {
        if self.started < self.cells.len() && self.running < self.limit {
            let index = self.started;
            let cell = self.cells[index];
            self.started = self.started + 1;
            self.running = self.running + 1;
            Step::Start { index, cell }
        } else if self.running > 0 {
            Step::Wait
        } else {
            Step::Done
        }
    }

    /// Whether the cell at `index` was started and has not completed.
    pub fn awaiting(&self, index: usize) -> (r: bool)
        requires
            self.wf(),
        ensures
            r == self.is_running(index as int),
    {
        index < self.started && !self.finished[index]
    }

    /// Folds in how the running cell at `index` ended.
    pub fn complete(&mut self, index: usize, end: CellEnd)
        requires
            old(self).wf(),
            old(self).is_running(index as int),
        ensures
            final(self).wf(),
            final(self).test_names() == old(self).test_names(),
            final(self).kinds() == old(self).kinds(),
            final(self).cells() == old(self).cells(),
            final(self).limit() == old(self).limit(),
            final(self).started() == old(self).started(),
            final(self).running() == old(self).running() - 1,
            forall|i: int| #[trigger]
                final(self).is_running(i) == (old(self).is_running(i) && i != index),
            final(self).arrivals().drop_last() == old(self).arrivals(),
            final(self).arrivals().len() == old(self).arrivals().len() + 1,
            resolves_to(
                old(self).test_names()[old(self).cells()[index as int].test as int],
                old(self).kinds()[old(self).cells()[index as int].env as int],
                end,
                final(self).arrivals().last(),
            ),
    {
        proof {
            lemma_distinct_positions_bound(self.sources@, self.started as int, index as int);
        }
        let cell = self.cells[index];
        let name = self.test_names[cell.test].clone();
        let kind = self.kinds[cell.env];
        let r = resolve_cell(name, kind, end);
        let ghost arrival = r;
        let ghost old_arrivals = self.arrivals@;
        let ghost old_sources = self.sources@;
        let ghost new_arrivals = old_arrivals.push(arrival);
        proof {
            assert(new_arrivals.drop_last() =~= old_arrivals);
        }
        match r {
            Ok(o) => {
                proof {
                    assert(failures_of(new_arrivals) == failures_of(old_arrivals));
                }
                self.outcomes.push(o);
            },
            Err((f, e)) => {
                let ghost old_failures = failures_of(old_arrivals);
                proof {
                    assert(failures_of(new_arrivals) == old_failures.push((f, e)));
                    assert(failure_views(old_failures.push((f, e))) =~= failure_views(
                        old_failures,
                    ).push((f, e@)));
                }
                match self.failures.take() {
                    Some(mut l) => {
                        l.push(f, e);
                        self.failures = Some(l);
                    },
                    None => {
                        proof {
                            assert(failure_views(old_failures) =~= Seq::empty());
                        }
                        self.failures = Some(ErrorList::new(f, e));
                    },
                }
                assert(self.failures->Some_0@ == failure_views(failures_of(new_arrivals)));
            },
        }
        self.finished.set(index, true);
        self.running = self.running - 1;
        self.arrivals = Ghost(new_arrivals);
        self.sources = Ghost(old_sources.push(index as int));
        proof {
            assert forall|j: int| 0 <= j < self.sources@.len() implies {
                &&& 0 <= #[trigger] self.sources@[j] < self.started
                &&& self.finished@[self.sources@[j]]
                &&& self.arrival_matches(j, self.cells@[self.sources@[j]])
            } by {
                if j < old_sources.len() {
                    assert(self.sources@[j] == old_sources[j]);
                    assert(self.arrivals@[j] == old_arrivals[j]);
                }
            }
        }
    }

    /// Whether every cell has completed.
    pub fn is_done(&self) -> (r: bool)
        requires
            self.wf(),
        ensures
            r == (self.started() == self.cells().len() && self.running() == 0),
    {
        self.started == self.cells.len() && self.running == 0
    }

    /// What the run comes to once every cell has completed: all outcomes,
    /// one per cell, where every cell set up; else every setup failure.
    pub fn finish(self) -> (r: Result<Vec<TestResult>, ErrorList<FailedToOpenPage>>)
        requires
            self.wf(),
            self.started() == self.cells().len(),
            self.running() == 0,
        ensures
            self.arrivals().len() == self.test_names().len() * self.kinds().len(),
            r is Ok <==> run_verdict(self.arrivals()) is Ok,
            (forall|i: int| 0 <= i < self.arrivals().len() ==> #[trigger] self.arrivals()[i] is Ok)
                ==> r is Ok,
            r is Ok ==> r->Ok_0@ == run_verdict(self.arrivals())->Ok_0,
            r is Ok ==> r->Ok_0@.len() == self.test_names().len() * self.kinds().len(),
            r is Err ==> r->Err_0@ == failure_views(run_verdict(self.arrivals())->Err_0),
            r is Err ==> r->Err_0.wf(),
    {
        proof {
            lemma_each_arrival_counted_once(self.arrivals@);
            if forall|i: int| 0 <= i < self.arrivals@.len() ==> #[trigger] self.arrivals@[i] is Ok {
                lemma_clean_run_keeps_all(self.arrivals@);
            }
        }
        match self.failures {
            Some(l) => Err(l),
            None => Ok(self.outcomes),
        }
    }
}

} // verus!
