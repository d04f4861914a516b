//! What the shell sends with each request to the browser binding (query
//! parameters and headers), and how it reads the status of an answer.
use vstd::prelude::*;

use crate::config::ConfigConnection;
use crate::def::{
    CMIS_DIR_ATTRIBUTES, CMIS_FILTER, CMIS_MAX_ITEMS, CMIS_OBJECT_ID, CMIS_QUERY, CMIS_SELECTOR,
    CMIS_SELECTOR_CHILDREN, CMIS_SELECTOR_PROPERTIES, CMIS_SELECTOR_QUERY, CMIS_SKIP_COUNT,
    CMIS_SUCCINCT, HEADER_AUTH,
};
use crate::error::CmisError;
use crate::text::{decimal, usize_to_string};

verus! {

/// The characters of each name and value.
pub open spec fn pairs_view(v: Seq<(String, String)>) -> Seq<(Seq<char>, Seq<char>)> {
    v.map_values(|p: (String, String)| (p.0@, p.1@))
}

fn pair(name: &str, value: &str) -> (res: (String, String))
    ensures
        res.0@ == name@,
        res.1@ == value@,
{
    (String::from_str(name), String::from_str(value))
}

/// The parameters of a page request: items to skip, page size, succinct
/// properties.
pub fn paging_params(skip_count: usize, paging_size: usize) -> (res: Vec<(String, String)>)
    ensures
        pairs_view(res@) == seq![
            (CMIS_SKIP_COUNT@, decimal(skip_count as nat)),
            (CMIS_MAX_ITEMS@, decimal(paging_size as nat)),
            (CMIS_SUCCINCT@, "true"@),
        ],
{
    let mut res: Vec<(String, String)> = Vec::new();
    res.push((String::from_str(CMIS_SKIP_COUNT), usize_to_string(skip_count)));
    res.push((String::from_str(CMIS_MAX_ITEMS), usize_to_string(paging_size)));
    res.push(pair(CMIS_SUCCINCT, "true"));
    assert(pairs_view(res@) =~= seq![
        (CMIS_SKIP_COUNT@, decimal(skip_count as nat)),
        (CMIS_MAX_ITEMS@, decimal(paging_size as nat)),
        (CMIS_SUCCINCT@, "true"@),
    ]);
    res
}

/// The parameters that run a query statement.
pub fn query_params(query: &str) -> (res: Vec<(String, String)>)
    ensures
        pairs_view(res@) == seq![(CMIS_SELECTOR@, CMIS_SELECTOR_QUERY@), (CMIS_QUERY@, query@)],
{
    let mut res: Vec<(String, String)> = Vec::new();
    res.push(pair(CMIS_SELECTOR, CMIS_SELECTOR_QUERY));
    res.push(pair(CMIS_QUERY, query));
    assert(pairs_view(res@) =~= seq![
        (CMIS_SELECTOR@, CMIS_SELECTOR_QUERY@),
        (CMIS_QUERY@, query@),
    ]);
    res
}

/// The parameters that list the children of a folder, page by page.
pub fn children_params(object_id: &str) -> (res: Vec<(String, String)>)
    ensures
        pairs_view(res@) == seq![
            (CMIS_SELECTOR@, CMIS_SELECTOR_CHILDREN@),
            (CMIS_OBJECT_ID@, object_id@),
        ],
{
    let mut res: Vec<(String, String)> = Vec::new();
    res.push(pair(CMIS_SELECTOR, CMIS_SELECTOR_CHILDREN));
    res.push(pair(CMIS_OBJECT_ID, object_id));
    assert(pairs_view(res@) =~= seq![
        (CMIS_SELECTOR@, CMIS_SELECTOR_CHILDREN@),
        (CMIS_OBJECT_ID@, object_id@),
    ]);
    res
}

/// The parameters that list the children of a folder in one request, to
/// find one child by name.
pub fn child_listing_params(object_id: &str) -> (res: Vec<(String, String)>)
    ensures
        pairs_view(res@) == seq![
            (CMIS_SUCCINCT@, "true"@),
            (CMIS_SELECTOR@, CMIS_SELECTOR_CHILDREN@),
            (CMIS_OBJECT_ID@, object_id@),
        ],
{
    let mut res: Vec<(String, String)> = Vec::new();
    res.push(pair(CMIS_SUCCINCT, "true"));
    res.push(pair(CMIS_SELECTOR, CMIS_SELECTOR_CHILDREN));
    res.push(pair(CMIS_OBJECT_ID, object_id));
    assert(pairs_view(res@) =~= seq![
        (CMIS_SUCCINCT@, "true"@),
        (CMIS_SELECTOR@, CMIS_SELECTOR_CHILDREN@),
        (CMIS_OBJECT_ID@, object_id@),
    ]);
    res
}

/// The parameters that read the succinct properties of an object.
pub fn property_params(object_id: &str) -> (res: Vec<(String, String)>)
    ensures
        pairs_view(res@) == seq![
            (CMIS_SUCCINCT@, "true"@),
            (CMIS_SELECTOR@, CMIS_SELECTOR_PROPERTIES@),
            (CMIS_OBJECT_ID@, object_id@),
        ],
{
    let mut res: Vec<(String, String)> = Vec::new();
    res.push(pair(CMIS_SUCCINCT, "true"));
    res.push(pair(CMIS_SELECTOR, CMIS_SELECTOR_PROPERTIES));
    res.push(pair(CMIS_OBJECT_ID, object_id));
    assert(pairs_view(res@) =~= seq![
        (CMIS_SUCCINCT@, "true"@),
        (CMIS_SELECTOR@, CMIS_SELECTOR_PROPERTIES@),
        (CMIS_OBJECT_ID@, object_id@),
    ]);
    res
}

/// The parameters that read the succinct properties of an object that a
/// directory listing needs.
pub fn dir_property_params(object_id: &str) -> (res: Vec<(String, String)>)
    ensures
        pairs_view(res@) == seq![
            (CMIS_SUCCINCT@, "true"@),
            (CMIS_SELECTOR@, CMIS_SELECTOR_PROPERTIES@),
            (CMIS_OBJECT_ID@, object_id@),
            (CMIS_FILTER@, CMIS_DIR_ATTRIBUTES@),
        ],
{
    let mut res = property_params(object_id);
    let ghost before = pairs_view(res@);
    res.push(pair(CMIS_FILTER, CMIS_DIR_ATTRIBUTES));
    assert(pairs_view(res@) =~= before.push((CMIS_FILTER@, CMIS_DIR_ATTRIBUTES@)));
    assert(pairs_view(res@) =~= seq![
        (CMIS_SUCCINCT@, "true"@),
        (CMIS_SELECTOR@, CMIS_SELECTOR_PROPERTIES@),
        (CMIS_OBJECT_ID@, object_id@),
        (CMIS_FILTER@, CMIS_DIR_ATTRIBUTES@),
    ]);
    res
}

/// The parameters that read the raw properties of an object for `stat`.
pub fn raw_property_params(object_id: &str) -> (res: Vec<(String, String)>)
    ensures
        pairs_view(res@) == seq![
            (CMIS_SELECTOR@, CMIS_SELECTOR_PROPERTIES@),
            (CMIS_OBJECT_ID@, object_id@),
            (CMIS_FILTER@, CMIS_DIR_ATTRIBUTES@),
        ],
{
    let mut res: Vec<(String, String)> = Vec::new();
    res.push(pair(CMIS_SELECTOR, CMIS_SELECTOR_PROPERTIES));
    res.push(pair(CMIS_OBJECT_ID, object_id));
    res.push(pair(CMIS_FILTER, CMIS_DIR_ATTRIBUTES));
    assert(pairs_view(res@) =~= seq![
        (CMIS_SELECTOR@, CMIS_SELECTOR_PROPERTIES@),
        (CMIS_OBJECT_ID@, object_id@),
        (CMIS_FILTER@, CMIS_DIR_ATTRIBUTES@),
    ]);
    res
}

/// The headers of a request: the connection's extra headers in their order,
/// then the access token.
pub fn request_headers(connection: &ConfigConnection, token: &str) -> (res: Vec<(String, String)>)
    ensures
        pairs_view(res@) == pairs_view(connection.extra_headers@).push((HEADER_AUTH@, token@)),
{
    let mut res: Vec<(String, String)> = Vec::new();
    let n = connection.extra_headers.len();
    for i in 0..n
        invariant
            n == connection.extra_headers@.len(),
            pairs_view(res@) == pairs_view(connection.extra_headers@).take(i as int),
    {
        let ghost before = pairs_view(res@);
        let (name, value) = &connection.extra_headers[i];
        res.push((name.clone(), value.clone()));
        assert(pairs_view(res@) =~= before.push(
            (connection.extra_headers@[i as int].0@, connection.extra_headers@[i as int].1@),
        ));
        assert(pairs_view(connection.extra_headers@).take(i + 1) =~= pairs_view(
            connection.extra_headers@,
        ).take(i as int).push(
            (connection.extra_headers@[i as int].0@, connection.extra_headers@[i as int].1@),
        ));
    }
    let ghost before = pairs_view(res@);
    res.push(pair(HEADER_AUTH, token));
    assert(pairs_view(connection.extra_headers@).take(n as int) =~= pairs_view(
        connection.extra_headers@,
    ));
    assert(pairs_view(res@) =~= before.push((HEADER_AUTH@, token@)));
    res
}

/// The reason phrase that `http::StatusCode` prints after the number of a
/// status: its canonical reason, or `<unknown status code>`.
pub uninterp spec fn status_reason(code: u16) -> Seq<char>;

/// The text of an HTTP status as `http::StatusCode`'s `Display` prints it:
/// the number, a space, then the reason phrase. The reason phrase is left
/// to the name `status_reason`, which is not stated here.
#[verifier::external_body]
fn status_text(code: u16) -> (res: String)
    requires
        100 <= code <= 999,
    ensures
        res@ == decimal(code as nat) + " "@ + status_reason(code),
{
    match ureq::http::StatusCode::from_u16(code) {
        Ok(status) => status.to_string(),
        Err(_) => String::new(),
    }
}

/// Whether a status is a success (`http::StatusCode::is_success`).
pub open spec fn is_success(code: u16) -> bool {
    200 <= code < 300
}

/// Exactly the 2xx statuses are successes (`http::StatusCode::is_success`):
/// every informational, redirection, client-error and server-error status
/// makes the answer an error.
pub proof fn lemma_success_is_2xx(code: u16)
    ensures
        200 <= code && code < 300 ==> is_success(code),
        is_success(code) ==> 200 <= code && code < 300,
        (100 <= code && code < 200) || (300 <= code && code < 600) ==> !is_success(code),
{
}

/// The body of an answer when its status is a success, else the error that
/// shows the text of the status and the body.
pub fn classify_response(status: u16, status_line: String, body: String) -> (res: Result<
    String,
    CmisError,
>)
    ensures
        is_success(status) ==> res == Ok::<String, CmisError>(body),
        !is_success(status) ==> res == Err::<String, CmisError>(
            CmisError::HttpStatus { status: status_line, body },
        ),
        res is Ok <==> 200 <= status && status < 300,
{
    if 200 <= status && status < 300 {
        Ok(body)
    } else {
        Err(CmisError::HttpStatus { status: status_line, body })
    }
}

/// The body of an answer with the given status and body, or the error for a
/// status that is not a success.
pub fn response_body(status: u16, body: String) -> (res: Result<String, CmisError>)
    requires
        100 <= status <= 999,
    ensures
        is_success(status) ==> res == Ok::<String, CmisError>(body),
        !is_success(status) ==> (res matches Err(CmisError::HttpStatus { status: s, body: b })
            && s@ == decimal(status as nat) + " "@ + status_reason(status) && b == body),
{
    classify_response(status, status_text(status), body)
}

} // verus!
