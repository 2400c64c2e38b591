use vstd::prelude::*;

use crate::payload::PayloadCookies;

verus! {

/// A cookie that a response sets.
#[derive(Clone, Copy, Debug)]
pub struct SetCookie {
    pub name: &'static str,
    pub value: &'static str,
}

/// Why the demo server refuses a request to its cookie check.
#[derive(Clone, Copy, Debug, PartialEq, Eq, Structural)]
pub enum CheckError {
    /// The `Response` cookie is not set: `/` was not visited first.
    CookieNotSet,
    /// The `Response` cookie holds another value than `42`.
    WrongCookie,
    /// The payload's message does not name the request's method.
    MessageWithoutMethod,
    /// The payload's count is not in 40..50.
    CountOutOfRange,
}

/// The greeting that every accepted request gets.
pub open spec fn greeting() -> Seq<char> {
    "Hello, world!"@
}

/// Whether `needle` occurs in `hay`.
pub open spec fn has_substring(hay: Seq<char>, needle: Seq<char>) -> bool {
    exists|i: int|
        0 <= i && i + needle.len() <= hay.len() && #[trigger] hay.subrange(i, i + needle.len())
            == needle
}

/// The verdict on the value of the `Response` cookie.
pub open spec fn cookie_verdict(cookie: Option<Seq<char>>) -> Result<(), CheckError> {
    match cookie {
        None => Err(CheckError::CookieNotSet),
        Some(c) => if c == "42"@ {
            Ok(())
        } else {
            Err(CheckError::WrongCookie)
        },
    }
}

/// The verdict on a request with a payload, whose message must hold `word`.
pub open spec fn payload_verdict(
    cookie: Option<Seq<char>>,
    message: Seq<char>,
    count: i32,
    word: Seq<char>,
) -> Result<(), CheckError> {
    if cookie_verdict(cookie) is Err {
        cookie_verdict(cookie)
    } else if !has_substring(message, word) {
        Err(CheckError::MessageWithoutMethod)
    } else if !(40 <= count < 50) {
        Err(CheckError::CountOutOfRange)
    } else {
        Ok(())
    }
}

pub open spec fn opt_view(s: Option<&str>) -> Option<Seq<char>> {
    match s {
        Some(t) => Some(t@),
        None => None,
    }
}

/// The response of an accepted request, or why it was refused.
pub open spec fn answers(r: Result<&'static str, CheckError>, verdict: Result<(), CheckError>) -> bool {
    match verdict {
        Ok(()) => r is Ok && r->Ok_0@ == greeting(),
        Err(e) => r == Err::<&'static str, CheckError>(e),
    }
}

fn chars_of(s: &str) -> (r: Vec<char>)
    ensures
        r@ == s@,
{
    let n = s.unicode_len();
    let mut r: Vec<char> = Vec::new();
    let mut i: usize = 0;
    while i < n
        invariant
            n == s@.len(),
            i <= n,
            r@ == s@.subrange(0, i as int),
        decreases n - i,
    {
        r.push(s.get_char(i));
        i = i + 1;
        assert(r@ =~= s@.subrange(0, i as int));
    }
    assert(s@.subrange(0, n as int) =~= s@);
    r
}

fn occurs_at(hay: &Vec<char>, needle: &Vec<char>, i: usize) -> (r: bool)
    requires
        i + needle@.len() <= hay@.len(),
    ensures
        r == (hay@.subrange(i as int, i + needle@.len()) == needle@),
{
    let hay_len = hay.len();
    let mut j: usize = 0;
    while j < needle.len()
        invariant
            i + needle@.len() <= hay@.len(),
            hay@.len() == hay_len,
            j <= needle@.len(),
            forall|k: int| 0 <= k < j ==> hay@[i + k] == needle@[k],
        decreases needle@.len() - j,
    {
        if hay[i + j] != needle[j] {
            assert(hay@.subrange(i as int, i + needle@.len())[j as int] != needle@[j as int]);
            return false;
        }
        j = j + 1;
    }
    assert(hay@.subrange(i as int, i + needle@.len()) =~= needle@);
    true
}

/// Whether `needle` occurs in `hay`.
pub fn contains(hay: &str, needle: &str) -> (r: bool)
    ensures
        r == has_substring(hay@, needle@),
{
    let h = chars_of(hay);
    let n = chars_of(needle);
    if n.len() > h.len() {
        return false;
    }
    let last = h.len() - n.len();
    let mut i: usize = 0;
    loop
        invariant
            h@ == hay@,
            n@ == needle@,
            last == h@.len() - n@.len(),
            i <= last,
            forall|k: int| 0 <= k < i ==> #[trigger] hay@.subrange(k, k + needle@.len()) != needle@,
        decreases last - i,
    {
        if occurs_at(&h, &n, i) {
            return true;
        }
        if i == last {
            return false;
        }
        i = i + 1;
    }
}

fn check_cookie(cookie: Option<&str>) -> (r: Result<(), CheckError>)
    ensures
        r == cookie_verdict(opt_view(cookie)),
{
    match cookie {
        None => Err(CheckError::CookieNotSet),
        Some(c) => {
            let expected = chars_of("42");
            let got = chars_of(c);
            let same = got.len() == expected.len() && occurs_at(&got, &expected, 0);
            proof {
                if got@.len() == expected@.len() {
                    assert(got@.subrange(0, expected@.len() as int) =~= got@);
                }
            }
            if same {
                Ok(())
            } else {
                Err(CheckError::WrongCookie)
            }
        },
    }
}

fn check_payload(cookie: Option<&str>, payload: &PayloadCookies, word: &str) -> (r: Result<
    &'static str,
    CheckError,
>)
    ensures
        answers(r, payload_verdict(opt_view(cookie), payload.message@, payload.count, word@)),
{
    if let Err(e) = check_cookie(cookie) {
        return Err(e);
    }
    if !contains(payload.message.as_str(), word) {
        return Err(CheckError::MessageWithoutMethod);
    }
    if !(40 <= payload.count && payload.count < 50) {
        return Err(CheckError::CountOutOfRange);
    }
    Ok("Hello, world!")
}

/// `GET /`: sets the `Response` cookie to `42` and greets.
pub fn index() -> (r: (SetCookie, &'static str))
    ensures
        r.0.name@ == "Response"@,
        r.0.value@ == "42"@,
        r.1@ == greeting(),
{
    (SetCookie { name: "Response", value: "42" }, "Hello, world!")
}

/// `GET /check-cookies`: accepted where the `Response` cookie is `42`.
pub fn get_check_cookies(cookie: Option<&str>) -> (r: Result<&'static str, CheckError>)
    ensures
        answers(r, cookie_verdict(opt_view(cookie))),
{
    match check_cookie(cookie) {
        Ok(()) => Ok("Hello, world!"),
        Err(e) => Err(e),
    }
}

/// `POST /check-cookies`: the cookie, a message that says "post" and a
/// count in 40..50.
pub fn post_check_cookies(cookie: Option<&str>, payload: &PayloadCookies) -> (r: Result<
    &'static str,
    CheckError,
>)
    ensures
        answers(r, payload_verdict(opt_view(cookie), payload.message@, payload.count, "post"@)),
{
    check_payload(cookie, payload, "post")
}

/// `PUT /check-cookies`: the cookie, a message that says "put" and a
/// count in 40..50.
pub fn put_check_cookies(cookie: Option<&str>, payload: &PayloadCookies) -> (r: Result<
    &'static str,
    CheckError,
>)
    ensures
        answers(r, payload_verdict(opt_view(cookie), payload.message@, payload.count, "put"@)),
{
    check_payload(cookie, payload, "put")
}

/// `PATCH /check-cookies`: the cookie, a message that says "patch" and a
/// count in 40..50.
pub fn patch_check_cookies(cookie: Option<&str>, payload: &PayloadCookies) -> (r: Result<
    &'static str,
    CheckError,
>)
    ensures
        answers(r, payload_verdict(opt_view(cookie), payload.message@, payload.count, "patch"@)),
{
    check_payload(cookie, payload, "patch")
}

/// `DELETE /check-cookies`: accepted where the `Response` cookie is `42`.
pub fn delete_check_cookies(cookie: Option<&str>) -> (r: Result<&'static str, CheckError>)
    ensures
        answers(r, cookie_verdict(opt_view(cookie))),
{
    match check_cookie(cookie) {
        Ok(()) => Ok("Hello, world!"),
        Err(e) => Err(e),
    }
}

} // verus!
