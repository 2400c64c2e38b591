use vstd::prelude::*;

verus! {

/// The body that tests send to the demo server's cookie check.
#[derive(Debug)]
pub struct PayloadCookies {
    pub message: String,
    pub count: i32,
}

} // verus!
