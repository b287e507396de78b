//! The addresses and fixed request values of the third-party login service.

use vstd::prelude::*;

verus! {

/// The page a user opens to scan a login code: the code between this prefix
/// and `LOGIN_PAGE_SUFFIX`.
pub const LOGIN_PAGE_PREFIX: &'static str = "https://h5.qzone.qq.com/qqq/code/";

pub const LOGIN_PAGE_SUFFIX: &'static str = "?_proxy=1&from=ide";

/// The endpoint that hands out a login code.
pub const LOGIN_CODE_ENDPOINT: &'static str = "https://q.qq.com/ide/devtoolAuth/GetLoginCode";

/// The status endpoint; the login code follows this prefix.
pub const STATUS_ENDPOINT_PREFIX: &'static str = "https://q.qq.com/ide/devtoolAuth/syncScanSateGetTicket?code=";

/// The endpoint that exchanges a ticket for the final authorization code.
pub const TICKET_EXCHANGE_ENDPOINT: &'static str = "https://q.qq.com/ide/login";

/// The application id sent with a ticket exchange.
pub const AUTH_APP_ID: &'static str = "1112386029";

/// The page at which the user scans `code`.
pub fn login_url(code: &String) -> (r: String)
    ensures
        r@ == LOGIN_PAGE_PREFIX@ + code@ + LOGIN_PAGE_SUFFIX@,
{
    LOGIN_PAGE_PREFIX.to_owned().concat(code.as_str()).concat(LOGIN_PAGE_SUFFIX)
}

/// The address at which the status of `code` is checked.
pub fn status_url(code: &String) -> (r: String)
    ensures
        r@ == STATUS_ENDPOINT_PREFIX@ + code@,
{
    STATUS_ENDPOINT_PREFIX.to_owned().concat(code.as_str())
}

/// The headers sent with every request to the login service, as name and value.
pub fn request_headers() -> (r: Vec<(String, String)>)
    ensures
        r@.len() == 4,
        r@[0].0@ == "content-type"@ && r@[0].1@ == "application/json"@,
        r@[1].0@ == "qua"@ && r@[1].1@ == "V1_HT5_QDT_0.70.2209190_x64_0_DEV_D"@,
        r@[2].0@ == "host"@ && r@[2].1@ == "q.qq.com"@,
        r@[3].0@ == "accept"@ && r@[3].1@ == "application/json"@,
{
    let mut r: Vec<(String, String)> = Vec::new();
    r.push(("content-type".to_owned(), "application/json".to_owned()));
    r.push(("qua".to_owned(), "V1_HT5_QDT_0.70.2209190_x64_0_DEV_D".to_owned()));
    r.push(("host".to_owned(), "q.qq.com".to_owned()));
    r.push(("accept".to_owned(), "application/json".to_owned()));
    r
}

} // verus!
