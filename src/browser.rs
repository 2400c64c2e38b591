use vstd::prelude::*;

verus! {

/// The browser engines that a run can bring up.
#[derive(Clone, Copy, Debug, PartialEq, Eq, Hash, Structural)]
pub enum BrowserType {
    Chromium,
    Firefox,
    Webkit,
}

/// The name under which an engine appears in the report.
pub open spec fn browser_name(b: BrowserType) -> Seq<char> {
    match b {
        BrowserType::Chromium => "Chromium"@,
        BrowserType::Firefox => "Firefox"@,
        BrowserType::Webkit => "Webkit"@,
    }
}

/// Every engine that a run tries to bring up, in the order it tries them.
pub open spec fn all_browsers() -> Seq<BrowserType> {
    seq![BrowserType::Chromium, BrowserType::Firefox, BrowserType::Webkit]
}

impl BrowserType {
    pub fn name(&self) -> (r: &'static str)
        ensures
            r@ == browser_name(*self),
    {
        match self {
            BrowserType::Chromium => "Chromium",
            BrowserType::Firefox => "Firefox",
            BrowserType::Webkit => "Webkit",
        }
    }

    pub fn all() -> (r: Vec<BrowserType>)
        ensures
            r@ == all_browsers(),
    {
        let r = vec![BrowserType::Chromium, BrowserType::Firefox, BrowserType::Webkit];
        assert(r@ =~= all_browsers());
        r
    }
}

} // verus!
