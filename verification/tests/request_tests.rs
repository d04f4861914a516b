use cmish::config::ConfigConnection;
use cmish::request::{
    child_listing_params, children_params, classify_response, dir_property_params, paging_params,
    property_params, query_params, raw_property_params, request_headers, response_body,
};

fn pairs(v: &[(String, String)]) -> Vec<(&str, &str)> {
    v.iter().map(|(a, b)| (a.as_str(), b.as_str())).collect()
}

#[test]
fn paging_parameters() {
    assert_eq!(
        pairs(&paging_params(200, 100)),
        vec![("skipCount", "200"), ("maxItems", "100"), ("succinct", "true")]
    );
    assert_eq!(
        pairs(&paging_params(0, 100000)),
        vec![("skipCount", "0"), ("maxItems", "100000"), ("succinct", "true")]
    );
}

#[test]
fn selector_parameters() {
    assert_eq!(
        pairs(&query_params("select * from x")),
        vec![("cmisselector", "query"), ("q", "select * from x")]
    );
    assert_eq!(
        pairs(&children_params("f")),
        vec![("cmisselector", "children"), ("objectId", "f")]
    );
    assert_eq!(
        pairs(&child_listing_params("f")),
        vec![("succinct", "true"), ("cmisselector", "children"), ("objectId", "f")]
    );
    assert_eq!(
        pairs(&property_params("o")),
        vec![("succinct", "true"), ("cmisselector", "properties"), ("objectId", "o")]
    );
    let dir = cmish::def::CMIS_DIR_ATTRIBUTES;
    assert_eq!(
        pairs(&dir_property_params("o")),
        vec![
            ("succinct", "true"),
            ("cmisselector", "properties"),
            ("objectId", "o"),
            ("filter", dir)
        ]
    );
    assert_eq!(
        pairs(&raw_property_params("o")),
        vec![("cmisselector", "properties"), ("objectId", "o"), ("filter", dir)]
    );
}

#[test]
fn headers_keep_order_and_end_with_token() {
    let mut connection = ConfigConnection::default();
    connection.extra_headers.push(("K1".to_string(), "v1".to_string()));
    connection.extra_headers.push(("K2".to_string(), "v2".to_string()));
    assert_eq!(
        pairs(&request_headers(&connection, "Bearer t")),
        vec![("K1", "v1"), ("K2", "v2"), ("Authorization", "Bearer t")]
    );
}

#[test]
fn response_status_decides() {
    assert_eq!(response_body(200, "ok".to_string()).ok().unwrap(), "ok");
    assert_eq!(response_body(299, "ok".to_string()).ok().unwrap(), "ok");
    let err = response_body(404, "missing".to_string()).err().unwrap();
    assert_eq!(err.message(), "404 Not Found:\nmissing");
    let err = response_body(500, "".to_string()).err().unwrap();
    assert_eq!(err.message(), "500 Internal Server Error:\n");
    let err = response_body(199, "b".to_string()).err().unwrap();
    assert!(err.message().starts_with("199 "));
    let err = classify_response(302, "302 Found".to_string(), "x".to_string()).err().unwrap();
    assert_eq!(err.message(), "302 Found:\nx");
}
