use e2e::{
    delete_check_cookies, get_check_cookies, index, patch_check_cookies, post_check_cookies,
    put_check_cookies, CheckError, PayloadCookies,
};

#[test]
fn foo() {
    assert_eq!(4, 2 + 2);
}

fn payload(message: &str, count: i32) -> PayloadCookies {
    PayloadCookies { message: message.to_string(), count }
}

#[test]
fn index_sets_the_response_cookie() {
    let (cookie, body) = index();
    assert_eq!(cookie.name, "Response");
    assert_eq!(cookie.value, "42");
    assert_eq!(body, "Hello, world!");
}

#[test]
fn cookie_checks_need_the_cookie() {
    assert_eq!(get_check_cookies(Some("42")), Ok("Hello, world!"));
    assert_eq!(get_check_cookies(None), Err(CheckError::CookieNotSet));
    assert_eq!(get_check_cookies(Some("41")), Err(CheckError::WrongCookie));
    assert_eq!(delete_check_cookies(Some("42")), Ok("Hello, world!"));
    assert_eq!(delete_check_cookies(Some("420")), Err(CheckError::WrongCookie));
    assert_eq!(delete_check_cookies(None), Err(CheckError::CookieNotSet));
}

#[test]
fn payload_checks_accept_the_mixed_methods_requests() {
    let c = Some("42");
    assert_eq!(post_check_cookies(c, &payload("Yummy posted cookies", 42)), Ok("Hello, world!"));
    assert_eq!(put_check_cookies(c, &payload("Yummy put cookies", 43)), Ok("Hello, world!"));
    assert_eq!(patch_check_cookies(c, &payload("Yummy patched cookies", 44)), Ok("Hello, world!"));
}

#[test]
fn payload_checks_refuse_bad_requests() {
    let c = Some("42");
    assert_eq!(
        post_check_cookies(None, &payload("Yummy posted cookies", 42)),
        Err(CheckError::CookieNotSet)
    );
    assert_eq!(
        post_check_cookies(c, &payload("Yummy put cookies", 42)),
        Err(CheckError::MessageWithoutMethod)
    );
    assert_eq!(
        put_check_cookies(c, &payload("Yummy put cookies", 50)),
        Err(CheckError::CountOutOfRange)
    );
    assert_eq!(
        patch_check_cookies(c, &payload("Yummy patched cookies", 39)),
        Err(CheckError::CountOutOfRange)
    );
    assert_eq!(
        patch_check_cookies(Some("7"), &payload("patch", 45)),
        Err(CheckError::WrongCookie)
    );
    assert_eq!(put_check_cookies(c, &payload("put", 40)), Ok("Hello, world!"));
    assert_eq!(put_check_cookies(c, &payload("put", 49)), Ok("Hello, world!"));
}
