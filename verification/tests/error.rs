use iroh_common::error::{ErrorBody, ErrorResponse, GatewayError, Method};

#[test]
fn new_error_has_no_method_and_no_html() {
    let e = GatewayError::new(500, "boom");
    assert_eq!(e.status_code, 500);
    assert_eq!(e.message, "boom");
    assert_eq!(e.method, None);
    assert!(!e.accept_html);
}

#[test]
fn builders_set_one_field_each() {
    let e = GatewayError::new(404, "missing").with_method(Method::Get).with_html();
    assert_eq!(e.status_code, 404);
    assert_eq!(e.message, "missing");
    assert_eq!(e.method, Some(Method::Get));
    assert!(e.accept_html);
}

#[test]
fn head_request_gets_an_empty_body() {
    let e = GatewayError::new(404, "missing").with_method(Method::Head).with_html();
    assert_eq!(
        e.into_response(),
        ErrorResponse { status: 404, body: ErrorBody::Empty }
    );
}

#[test]
fn html_client_gets_the_not_found_page_on_404() {
    let e = GatewayError::new(404, "missing").with_method(Method::Get).with_html();
    assert_eq!(
        e.into_response(),
        ErrorResponse { status: 404, body: ErrorBody::NotFoundPage }
    );
}

#[test]
fn html_client_gets_json_on_other_errors() {
    let e = GatewayError::new(500, "boom").with_html();
    assert_eq!(
        e.into_response(),
        ErrorResponse {
            status: 500,
            body: ErrorBody::Json { code: 500, success: false, message: "boom".to_string() }
        }
    );
}

#[test]
fn plain_client_gets_json_on_404() {
    let e = GatewayError::new(404, "missing").with_method(Method::Post);
    assert_eq!(
        e.into_response(),
        ErrorResponse {
            status: 404,
            body: ErrorBody::Json { code: 404, success: false, message: "missing".to_string() }
        }
    );
}

#[test]
fn extension_method_is_not_head() {
    let e = GatewayError::new(400, "bad").with_method(Method::Extension("HEADER".to_string()));
    assert_eq!(
        e.into_response().body,
        ErrorBody::Json { code: 400, success: false, message: "bad".to_string() }
    );
}

#[test]
fn error_reads_with_status_reason_and_message() {
    let e = GatewayError::new(404, "not here");
    assert_eq!(e.to_string(), "gateway_error(404 Not Found): not here)");
    let e = GatewayError::new(200, "");
    assert_eq!(e.to_string(), "gateway_error(200 OK): )");
    let e = GatewayError::new(503, "later");
    assert_eq!(e.to_string(), "gateway_error(503 Service Unavailable): later)");
}

#[test]
fn status_without_reason_reads_as_unknown() {
    let e = GatewayError::new(599, "odd");
    assert_eq!(e.to_string(), "gateway_error(599 <unknown status code>): odd)");
    let e = GatewayError::new(100, "x");
    assert_eq!(e.to_string(), "gateway_error(100 Continue): x)");
}
