//! The requests that are sent to the meal service, and what is made of its
//! replies before they are used.

use vstd::prelude::*;
use vstd::string::StringExecFns;
use crate::date::iso_date_text;
use crate::date::Date;
use crate::menu::DishIngredients;
use crate::menu::DishSizeIngredients;
use crate::text::decimal;
use crate::text::push_decimal;

verus! {

/// How a request is made.
#[derive(Debug, Clone, Copy, PartialEq, Eq, Structural)]
pub enum Method {
    Get,
    Put,
}

/// One request to the service: where it goes, how, with which access token,
/// and with which body, if any.
#[derive(Debug)]
pub struct Request {
    pub url: String,
    pub method: Method,
    pub token: String,
    pub body: Option<String>,
}

/// What the service hands back when a refresh token is exchanged: the
/// access token and the next refresh token.
#[derive(Debug)]
pub struct RefreshTokenResponse {
    pub token: String,
    pub refresh_token: String,
}

/// The address of the service.
pub const API_ROOT: &'static str = "https://api.powermeal.pl";

/// The `Origin` header of every request.
pub const ORIGIN: &'static str = "https://panel.powermeal.pl";

/// The `Accept` header of every request.
pub const ACCEPT: &'static str = "application/json, text/plain, */*";

/// The `Content-Type` header of a request with a body.
pub const CONTENT_TYPE: &'static str = "application/json";

/// The status with which the service asks to wait and try again.
pub const TOO_MANY_REQUESTS: u16 = 429;

/// The seconds to wait where the service names none.
pub const DEFAULT_RETRY_SECONDS: u64 = 10;

/// The headers of a request, in the order in which they are set.
pub open spec fn headers_of(token: Seq<char>, has_body: bool) -> Seq<(Seq<char>, Seq<char>)> {
    seq![
        ("Authorization"@, "Bearer "@ + token),
        ("Origin"@, ORIGIN@),
        ("Accept"@, ACCEPT@),
    ] + if has_body {
        seq![("Content-Type"@, CONTENT_TYPE@)]
    } else {
        Seq::empty()
    }
}

/// The headers with which `request` is sent.
pub fn request_headers(request: &Request) -> (r: Vec<(String, String)>)
    ensures
        r.deep_view() == headers_of(request.token@, request.body is Some),
{
    let mut bearer = String::from_str("Bearer ");
    bearer.append(request.token.as_str());
    let mut headers: Vec<(String, String)> = Vec::new();
    headers.push((String::from_str("Authorization"), bearer));
    headers.push((String::from_str("Origin"), String::from_str(ORIGIN)));
    headers.push((String::from_str("Accept"), String::from_str(ACCEPT)));
    if request.body.is_some() {
        headers.push((String::from_str("Content-Type"), String::from_str(CONTENT_TYPE)));
    }
    assert(headers.deep_view() =~= headers_of(request.token@, request.body is Some));
    headers
}

/// The body with which a refresh token is exchanged.
pub open spec fn refresh_body(refresh_token: Seq<char>) -> Seq<char> {
    "{\"refreshToken\":\""@ + refresh_token + "\"}"@
}

/// The request that exchanges a refresh token for an access token.
pub fn refresh_token(token: &str) -> (r: Request)
    ensures
        r.url@ == API_ROOT@ + "/refresh_token"@,
        r.method == Method::Put,
        r.token@ == Seq::<char>::empty(),
        r.body.deep_view() == Some(refresh_body(token@)),
{
    let mut url = String::from_str(API_ROOT);
    url.append("/refresh_token");
    let mut body = String::from_str("{\"refreshToken\":\"");
    body.append(token);
    body.append("\"}");
    Request { url, method: Method::Put, token: String::new(), body: Some(body) }
}

/// The address of the menu of one day of a diet.
pub open spec fn day_items_url(diet_id: int, date: Date) -> Seq<char> {
    API_ROOT@ + "/v2/frontend/secure/calendar/"@ + decimal(diet_id) + "/days/"@ + iso_date_text(
        date.ord(),
    ) + "/items"@
}

/// The request for the menu of one day of a diet.
pub fn get_diet(date: &Date, diet_id: i64, token: &str) -> (r: Request)
    ensures
        r.url@ == day_items_url(diet_id as int, *date),
        r.method == Method::Get,
        r.token@ == token@,
        r.body is None,
{
    let mut url = String::from_str(API_ROOT);
    url.append("/v2/frontend/secure/calendar/");
    push_decimal(&mut url, diet_id);
    url.append("/days/");
    url.append(date.iso_text().as_str());
    url.append("/items");
    Request { url, method: Method::Get, token: String::from_str(token), body: None }
}

/// The request for the diets of the account.
pub fn fetch_diets(token: &str) -> (r: Request)
    ensures
        r.url@ == API_ROOT@ + "/frontend/secure/my-diets?pagination=false"@,
        r.method == Method::Get,
        r.token@ == token@,
        r.body is None,
{
    let mut url = String::from_str(API_ROOT);
    url.append("/frontend/secure/my-diets?pagination=false");
    Request { url, method: Method::Get, token: String::from_str(token), body: None }
}

/// The address of the calendar of a diet from one day to another.
pub open spec fn calendar_url(diet_id: int, from: Date, to: Date) -> Seq<char> {
    API_ROOT@ + "/frontend/secure/calendar/"@ + decimal(diet_id) + "/"@ + iso_date_text(
        from.ord(),
    ) + "/"@ + iso_date_text(to.ord())
}

/// The request for the calendar of a diet from one day to another.
pub fn fetch_calendar(token: &str, diet_id: i64, from: Date, to: Date) -> (r: Request)
    ensures
        r.url@ == calendar_url(diet_id as int, from, to),
        r.method == Method::Get,
        r.token@ == token@,
        r.body is None,
{
    let mut url = String::from_str(API_ROOT);
    url.append("/frontend/secure/calendar/");
    push_decimal(&mut url, diet_id);
    url.append("/");
    url.append(from.iso_text().as_str());
    url.append("/");
    url.append(to.iso_text().as_str());
    Request { url, method: Method::Get, token: String::from_str(token), body: None }
}

/// The address to which the menu changes of one day of a diet are sent.
pub open spec fn change_menu_url(diet_id: int, date: Date) -> Seq<char> {
    API_ROOT@ + "/v2/frontend/secure/calendar/"@ + decimal(diet_id) + "/days/"@ + iso_date_text(
        date.ord(),
    ) + "/change-menu"@
}

/// The request that sends the menu changes of one day of a diet; `body`
/// holds the changes as the service reads them.
pub fn change_menu(token: &str, date: &Date, diet_id: i64, body: String) -> (r: Request)
    ensures
        r.url@ == change_menu_url(diet_id as int, *date),
        r.method == Method::Put,
        r.token@ == token@,
        r.body == Some(body),
{
    let mut url = String::from_str(API_ROOT);
    url.append("/v2/frontend/secure/calendar/");
    push_decimal(&mut url, diet_id);
    url.append("/days/");
    url.append(date.iso_text().as_str());
    url.append("/change-menu");
    Request { url, method: Method::Put, token: String::from_str(token), body: Some(body) }
}

/// The address of the ingredients of a dish in one size.
pub open spec fn ingredients_url(dish_size_id: int) -> Seq<char> {
    API_ROOT@ + "/v2/frontend/ingredients_by_dish_sizes/list?dishSizeIds[]="@ + decimal(
        dish_size_id,
    )
}

/// The request for the ingredients of a dish in one size.
pub fn fetch_ingredients(token: &str, dish_size_id: i64) -> (r: Request)
    ensures
        r.url@ == ingredients_url(dish_size_id as int),
        r.method == Method::Get,
        r.token@ == token@,
        r.body is None,
{
    let mut url = String::from_str(API_ROOT);
    url.append("/v2/frontend/ingredients_by_dish_sizes/list?dishSizeIds[]=");
    push_decimal(&mut url, dish_size_id);
    Request { url, method: Method::Get, token: String::from_str(token), body: None }
}

/// Why a reply of the service is not used.
#[derive(Debug, Clone, Copy, PartialEq, Eq, Structural)]
pub enum ApiError {
    /// An ingredient lookup gave this many records, not one.
    IngredientCount { found: usize },
}

/// The one record of an ingredient lookup; more or fewer is an error.
pub fn single_ingredients(found: DishIngredients) -> (r: Result<DishSizeIngredients, ApiError>)
    ensures
        match r {
            Ok(record) => found.members@.len() == 1 && record == found.members@[0],
            Err(e) => found.members@.len() != 1 && e == (ApiError::IngredientCount {
                found: found.members@.len() as usize,
            }),
        },
{
    let mut members = found.members;
    let count = members.len();
    if count != 1 {
        return Err(ApiError::IngredientCount { found: count });
    }
    match members.pop() {
        Some(record) => Ok(record),
        None => Err(ApiError::IngredientCount { found: count }),
    }
}

/// The value of a run of decimal digits; `None` where a character is no
/// digit.
pub open spec fn digits_value(digits: Seq<char>) -> Option<nat>
    decreases digits.len(),
{
    if digits.len() == 0 {
        Some(0)
    } else {
        let last = digits.last();
        match digits_value(digits.drop_last()) {
            Some(rest) => if '0' <= last && last <= '9' {
                Some((rest * 10 + (last as nat - '0' as nat)) as nat)
            } else {
                None
            },
            None => None,
        }
    }
}

/// The number that a text stands for: decimal digits, at least one, with or
/// without a plus sign before them, and a value that a `u64` can hold.
pub open spec fn parsed_number(text: Seq<char>) -> Option<u64> {
    let digits = if text.len() > 0 && text[0] == '+' {
        text.drop_first()
    } else {
        text
    };
    if digits.len() == 0 {
        None
    } else {
        match digits_value(digits) {
            Some(value) => if value <= u64::MAX {
                Some(value as u64)
            } else {
                None
            },
            None => None,
        }
    }
}

/// Reads a number of seconds.
///
/// Trusted: calls `str::parse::<u64>` of std, which reads decimal digits
/// with an optional plus sign before them, and fails on an empty text, on any
/// other character, and on a value that a `u64` cannot hold.
#[verifier::external_body]
fn parse_seconds(text: &str) -> (r: Option<u64>)
    ensures
        r == parsed_number(text@),
{
    text.parse::<u64>().ok()
}

/// The seconds to wait before a request is tried again: those that the
/// `Retry-After` header names, or `DEFAULT_RETRY_SECONDS` where there is no
/// such header or it names no number.
pub open spec fn retry_seconds(retry_after: Option<Seq<char>>) -> u64 {
    match retry_after {
        Some(text) => match parsed_number(text) {
            Some(seconds) => seconds,
            None => DEFAULT_RETRY_SECONDS,
        },
        None => DEFAULT_RETRY_SECONDS,
    }
}

/// What is done with a reply.
#[derive(Debug, Clone, Copy, PartialEq, Eq, Structural)]
pub enum NextStep {
    /// Read the reply's body and hand it on.
    Deliver,
    /// Wait this many seconds, then send the same request again.
    RetryAfter { seconds: u64 },
}

/// What is done with a reply of the given status and `Retry-After` header:
/// where the service asks to wait, the request is sent again after the wait;
/// every other reply is handed on.
pub fn send_request(status: u16, retry_after: Option<&str>) -> (r: NextStep)
    ensures
        r == if status == TOO_MANY_REQUESTS {
            NextStep::RetryAfter { seconds: retry_seconds(retry_after.deep_view()) }
        } else {
            NextStep::Deliver
        },
{
    if status == TOO_MANY_REQUESTS {
        let seconds = match retry_after {
            Some(text) => match parse_seconds(text) {
                Some(seconds) => seconds,
                None => DEFAULT_RETRY_SECONDS,
            },
            None => DEFAULT_RETRY_SECONDS,
        };
        NextStep::RetryAfter { seconds }
    } else {
        NextStep::Deliver
    }
}

} // verus!
