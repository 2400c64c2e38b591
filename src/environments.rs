use vstd::prelude::*;

use crate::browser::BrowserType;
use crate::errors::{ErrorList, FailedToInitialize};

verus! {

/// The engines that came up, in the order they were tried.
pub open spec fn launched<E>(attempts: Seq<(BrowserType, Result<E, String>)>) -> Seq<
    (BrowserType, E),
>
    decreases attempts.len(),
{
    if attempts.len() == 0 {
        Seq::empty()
    } else {
        let rest = launched(attempts.drop_last());
        match attempts.last().1 {
            Ok(e) => rest.push((attempts.last().0, e)),
            Err(_) => rest,
        }
    }
}

/// The engines that failed to come up, each with its error, in the order
/// they were tried.
pub open spec fn launch_failures<E>(attempts: Seq<(BrowserType, Result<E, String>)>) -> Seq<
    (FailedToInitialize, Seq<char>),
>
    decreases attempts.len(),
{
    if attempts.len() == 0 {
        Seq::empty()
    } else {
        let rest = launch_failures(attempts.drop_last());
        match attempts.last().1 {
            Ok(_) => rest,
            Err(e) => rest.push((FailedToInitialize(attempts.last().0), e@)),
        }
    }
}

/// Reduces the attempts to bring up each engine: every engine, or every
/// failure. The attempts were all made, so one failure does not hide another.
pub fn collect_environments<E>(attempts: Vec<(BrowserType, Result<E, String>)>) -> (r: Result<
    Vec<(BrowserType, E)>,
    ErrorList<FailedToInitialize>,
>)
    ensures
        r is Ok <==> launch_failures(attempts@).len() == 0,
        r is Ok ==> r->Ok_0@ == launched(attempts@),
        r is Err ==> r->Err_0@ == launch_failures(attempts@) && r->Err_0.wf(),
{
    let ghost all = attempts@;
    let total = attempts.len();
    let mut attempts = attempts;
    let mut ready: Vec<(BrowserType, E)> = Vec::new();
    let mut errors: Option<ErrorList<FailedToInitialize>> = None;
    let mut done: usize = 0;
    while attempts.len() > 0
        invariant
            all.len() == total,
            done + attempts@.len() == all.len(),
            attempts@ == all.subrange(done as int, all.len() as int),
            ready@ == launched(all.subrange(0, done as int)),
            match errors {
                None => launch_failures(all.subrange(0, done as int)).len() == 0,
                Some(l) => l@ == launch_failures(all.subrange(0, done as int)) && l.wf(),
            },
        decreases attempts@.len(),
    {
        let (kind, attempt) = attempts.remove(0);
        assert(all.subrange(0, done + 1).drop_last() =~= all.subrange(0, done as int));
        match attempt {
            Ok(env) => {
                ready.push((kind, env));
            },
            Err(err) => {
                match errors {
                    Some(mut l) => {
                        l.push(FailedToInitialize(kind), err);
                        errors = Some(l);
                    },
                    None => {
                        errors = Some(ErrorList::new(FailedToInitialize(kind), err));
                    },
                }
            },
        }
        done = done + 1;
        assert(attempts@ =~= all.subrange(done as int, all.len() as int));
    }
    assert(all.subrange(0, done as int) =~= all);
    match errors {
        Some(l) => Err(l),
        None => Ok(ready),
    }
}

} // verus!
