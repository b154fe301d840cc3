use bugboard_mcp::element::{
    encode_component, DynamicListInfoRequest, DynamicListRequest, ElementRpc, EntityReadRequest,
    ModuleCall, Parameter, PresentationLookup, PresentationRequest, Reference, RemoteCallerInfo,
};
use bugboard_mcp::error::Error;
use bugboard_mcp::http::{Header, HttpMethod, HttpRequest, Session};
use bugboard_mcp::response::{DynamicListResponse, DynamicListRow, ExitReason, ModuleCallResponse};

#[test]
fn facade_builds_sessionless_descriptor_without_browser_origin_headers() {
    let request = ElementRpc::with_base_url("https://example.invalid/app/")
        .unwrap()
        .with_locale("en-US", "en_US")
        .unwrap()
        .call("module", "method")
        .unwrap()
        .param("Std::String", "\"value\"")
        .unwrap()
        .request()
        .unwrap();

    assert_eq!(
        request.url(),
        "https://example.invalid/app/ui/module/call?locale=en-US&pubLocale=en_US"
    );
    assert!(request
        .headers()
        .iter()
        .all(|header| !matches!(header.name(), "Origin" | "Referer" | "Cookie")));
}

#[test]
fn session_is_attached_explicitly_and_redacted() {
    let request = HttpRequest::get("https://example.invalid/status")
        .unwrap()
        .with_session(&Session::from_cookie_header("Cookie: session=value").unwrap())
        .unwrap();

    assert_eq!(
        request
            .headers()
            .iter()
            .find(|header| header.name().eq_ignore_ascii_case("cookie"))
            .map(Header::value),
        Some("session=value")
    );
    assert!(!request.debug_repr().contains("session=value"));
}

#[test]
fn headers_reject_line_breaks() {
    assert!(matches!(
        Header::new("X-Test\r\nInjected", "value"),
        Err(Error::InvalidHeaderName)
    ));
    assert!(matches!(
        Header::new("X-Test", "value\r\nInjected: true"),
        Err(Error::InvalidHeaderValue)
    ));
}

#[test]
fn sensitive_headers_are_redacted() {
    let header = Header::new("Authorization", "Bearer secret").unwrap();

    assert!(!header.debug_repr().contains("secret"));
}

#[test]
fn serializes_wire_requests() {
    let call = ModuleCall::new("module", "method")
        .unwrap()
        .with_parameter(Parameter::undefined());
    let request = call
        .into_http_request_without_session("https://example.invalid", "ru-RU", "ru_RU")
        .unwrap();
    let body: serde_json::Value = serde_json::from_str(request.body().unwrap()).unwrap();
    let expected: serde_json::Value = serde_json::from_str(
        r#"{"moduleName":"module","methodName":"method","parameters":[{"type":"Std::Undefined"}]}"#,
    )
    .unwrap();
    assert_eq!(body, expected);

    let dynamic_list = DynamicListRequest::new(r#"{"MainTable":"Example"}"#, 4);
    let request = dynamic_list
        .into_http_request_without_session("https://example.invalid", "ru-RU", "ru_RU")
        .unwrap();
    let body: serde_json::Value = serde_json::from_str(request.body().unwrap()).unwrap();
    assert_eq!(body["limit"], serde_json::Value::from(4));
}

#[test]
fn request_parts_are_available_to_external_transports() {
    let request = HttpRequest::json("https://example.invalid/call", r#"{"ok":true}"#).unwrap();
    let (method, url, headers, body) = request.into_parts();

    assert_eq!(method, HttpMethod::Post);
    assert_eq!(url, "https://example.invalid/call");
    assert_eq!(headers.len(), 2);
    assert_eq!(body.as_deref(), Some(r#"{"ok":true}"#));
}

#[test]
fn module_call_body_is_exact_json_text() {
    let request = ModuleCall::new("module", "method")
        .unwrap()
        .with_parameter(Parameter::typed("Std::String", "\"value\"").unwrap())
        .with_parameter(Parameter::undefined())
        .with_remote_caller_info(RemoteCallerInfo::disabled("caller").unwrap())
        .into_http_request_without_session("https://example.invalid/", "en-US", "en_US")
        .unwrap();
    assert_eq!(
        request.body(),
        Some(
            r#"{"moduleName":"module","methodName":"method","parameters":[{"type":"Std::String","value":"value"},{"type":"Std::Undefined"}],"remoteCallerInfo":{"id":"caller","debugState":"DISABLED","bslStack":[]}}"#
        )
    );
    assert_eq!(request.method(), HttpMethod::Post);
    assert_eq!(
        request.url(),
        "https://example.invalid/ui/module/call?locale=en-US&pubLocale=en_US"
    );
    let names: Vec<&str> = request.headers().iter().map(|h| h.name()).collect();
    assert_eq!(names, vec!["Accept", "Content-Type"]);
    assert_eq!(request.headers()[0].value(), "application/json, text/plain, */*");
    assert_eq!(request.headers()[1].value(), "application/json");
}

#[test]
fn builder_remote_caller_and_build() {
    let rpc = ElementRpc::with_base_url("https://example.invalid").unwrap();
    let call = rpc
        .call("m", "f")
        .unwrap()
        .remote_caller("id-1")
        .unwrap()
        .build();
    assert_eq!(call.module_name(), "m");
    assert_eq!(call.method_name(), "f");
    assert_eq!(call.parameters().len(), 0);
    assert!(matches!(
        rpc.call("m", "f").unwrap().remote_caller(" "),
        Err(Error::EmptyArgument("remote caller id"))
    ));
    assert!(matches!(
        rpc.call("m", "f").unwrap().param("", "1"),
        Err(Error::EmptyArgument("parameter type"))
    ));
    let request = rpc.call("m", "f").unwrap().request().unwrap();
    assert_eq!(
        request.url(),
        "https://example.invalid/ui/module/call?locale=ru-RU&pubLocale=ru_RU"
    );
}

#[test]
fn json_strings_are_escaped() {
    let request = EntityReadRequest::new(Reference::new("T", "a\"b\\c\n").unwrap())
        .into_http_request_without_session("https://x", "l", "p")
        .unwrap();
    assert_eq!(
        request.body(),
        Some(r#"{"reference":{"type":"T","value":"a\"b\\c\n"}}"#)
    );
    assert_eq!(request.url(), "https://x/ui/entity/read?locale=l&pubLocale=p");
}

#[test]
fn facade_defaults_and_normalization() {
    let rpc = ElementRpc::with_base_url("  https://example.invalid//  ").unwrap();
    assert_eq!(rpc.base_url(), "https://example.invalid");
    assert_eq!(rpc.locale(), "ru-RU");
    assert_eq!(rpc.pub_locale(), "ru_RU");
    assert!(matches!(ElementRpc::with_base_url(" /// "), Err(Error::EmptyBaseUrl)));
    let rpc = rpc.with_locale("de-DE", "de_DE").unwrap();
    assert_eq!(rpc.locale(), "de-DE");
    assert_eq!(rpc.pub_locale(), "de_DE");
    assert!(matches!(
        ElementRpc::with_base_url("https://x").unwrap().with_locale(" ", "x"),
        Err(Error::EmptyArgument("locale"))
    ));
    assert!(matches!(
        ElementRpc::with_base_url("https://x").unwrap().with_locale("x", "\t"),
        Err(Error::EmptyArgument("pubLocale"))
    ));
}

#[test]
fn module_call_requires_names() {
    assert!(matches!(ModuleCall::new(" ", "m"), Err(Error::EmptyArgument("moduleName"))));
    assert!(matches!(ModuleCall::new("m", ""), Err(Error::EmptyArgument("methodName"))));
    let call = ModuleCall::new("m", "f").unwrap();
    assert!(matches!(
        call.into_http_request_without_session("  ", "l", "p"),
        Err(Error::EmptyBaseUrl)
    ));
    let call = ModuleCall::new("m", "f").unwrap();
    assert!(matches!(
        call.into_http_request_without_session("https://x", "", "p"),
        Err(Error::EmptyArgument("locale"))
    ));
}

#[test]
fn locale_query_is_percent_encoded() {
    assert_eq!(encode_component("a b/é~._-Z9"), "a%20b%2F%C3%A9~._-Z9");
    assert_eq!(encode_component("&="), "%26%3D");
    let request = ModuleCall::new("m", "f")
        .unwrap()
        .into_http_request_without_session("https://x", "en US", "a&b")
        .unwrap();
    assert_eq!(
        request.url(),
        "https://x/ui/module/call?locale=en%20US&pubLocale=a%26b"
    );
}

#[test]
fn parameters_and_references() {
    let p = Parameter::typed("Std::Number", "12").unwrap();
    assert_eq!(p.type_label(), "Std::Number");
    assert_eq!(p.value(), Some("12"));
    let u = Parameter::undefined();
    assert_eq!(u.type_label(), "Std::Undefined");
    assert_eq!(u.value(), None);
    let r = Reference::new("T", "v").unwrap();
    assert_eq!(r.type_label(), "T");
    assert_eq!(r.value(), "v");
    assert!(matches!(Reference::new("T", " \t"), Err(Error::EmptyReferenceValue)));
    assert!(matches!(Reference::new("", "v"), Err(Error::EmptyArgument("reference type"))));
    let read = EntityReadRequest::new(Reference::new("T", "v").unwrap());
    assert_eq!(read.reference().value(), "v");
}

#[test]
fn presentation_requests() {
    assert!(matches!(
        PresentationLookup::new("T", vec!["a".to_string(), " ".to_string()]),
        Err(Error::EmptyReferenceValue)
    ));
    assert!(matches!(
        PresentationLookup::new(" ", vec![]),
        Err(Error::EmptyArgument("presentation type"))
    ));
    let lookups = vec![
        PresentationLookup::new("T", vec!["a".to_string(), "b".to_string()]).unwrap(),
        PresentationLookup::new("U", vec![]).unwrap(),
    ];
    let request = PresentationRequest::new(lookups)
        .into_http_request_without_session("https://x/", "l", "p")
        .unwrap();
    assert_eq!(
        request.body(),
        Some(r#"[{"typeName":"T","ids":["a","b"]},{"typeName":"U","ids":[]}]"#)
    );
    assert_eq!(request.url(), "https://x/ui/presentation?locale=l&pubLocale=p");
}

#[test]
fn dynamic_list_bodies() {
    let request = DynamicListRequest::new(r#"{"MainTable":"Example"}"#, 4)
        .into_http_request_without_session("https://x", "l", "p")
        .unwrap();
    assert_eq!(
        request.body(),
        Some(
            r#"{"dynamicList":{"MainTable":"Example"},"cursorDirection":0,"keyRowPosition":0,"showDeleted":true,"limit":4,"useHierarchy":false}"#
        )
    );
    assert_eq!(request.url(), "https://x/ui/dynamic-list?locale=l&pubLocale=p");
    let request = DynamicListInfoRequest::new(r#"{"x":1}"#)
        .into_http_request_without_session("https://x", "l", "p")
        .unwrap();
    assert_eq!(request.body(), Some(r#"{"dynamicList":{"x":1}}"#));
    assert_eq!(request.url(), "https://x/ui/dynamic-list-info?locale=l&pubLocale=p");
}

#[test]
fn get_and_json_normalize_the_url() {
    let request = HttpRequest::get("  https://x/status \n").unwrap();
    assert_eq!(request.url(), "https://x/status");
    assert_eq!(request.method(), HttpMethod::Get);
    assert_eq!(request.body(), None);
    assert_eq!(request.headers().len(), 1);
    assert!(matches!(HttpRequest::get(" \u{3000} "), Err(Error::EmptyUrl)));
    assert!(matches!(HttpRequest::json("", "{}"), Err(Error::EmptyUrl)));
}

#[test]
fn cookie_headers_are_normalized() {
    assert_eq!(
        Session::from_cookie_header("  COOKIE:  a=b  ").unwrap().cookie_header(),
        "a=b"
    );
    assert_eq!(Session::from_cookie_header("a=b").unwrap().cookie_header(), "a=b");
    assert!(matches!(Session::from_cookie_header("Cookie:  "), Err(Error::EmptyCookieHeader)));
    assert!(matches!(Session::from_cookie_header("  "), Err(Error::EmptyCookieHeader)));
    assert!(matches!(
        Session::from_cookie_header("a=b\r\nX: y"),
        Err(Error::InvalidCookieHeader)
    ));
}

#[test]
fn cookie_header_replaces_every_cookie() {
    let request = HttpRequest::get("https://x")
        .unwrap()
        .with_header("cookie", "old=1")
        .unwrap()
        .with_header("X-Other", "1")
        .unwrap()
        .with_cookie_header("first=1")
        .unwrap()
        .with_cookie_header("Cookie: second=2")
        .unwrap();
    let headers: Vec<(&str, &str)> = request.headers().iter().map(|h| (h.name(), h.value())).collect();
    assert_eq!(
        headers,
        vec![
            ("Accept", "application/json, text/plain, */*"),
            ("X-Other", "1"),
            ("Cookie", "second=2"),
        ]
    );
    assert!(matches!(
        HttpRequest::get("https://x").unwrap().with_cookie_header(" "),
        Err(Error::EmptyCookieHeader)
    ));
}

#[test]
fn with_header_checks_and_appends() {
    let request = HttpRequest::get("https://x").unwrap().with_header("X-A", "b").unwrap();
    let last = request.headers().last().unwrap();
    assert_eq!((last.name(), last.value()), ("X-A", "b"));
    assert!(matches!(
        HttpRequest::get("https://x").unwrap().with_header(" ", "b"),
        Err(Error::EmptyHeaderName)
    ));
    assert!(matches!(Header::new("", "v"), Err(Error::EmptyHeaderName)));
    let (name, value) = Header::new("N", "V").unwrap().into_parts();
    assert_eq!((name.as_str(), value.as_str()), ("N", "V"));
}

#[test]
fn debug_texts_are_exact() {
    let header = Header::new("Authorization", "Bearer secret").unwrap();
    assert_eq!(header.debug_repr(), r#"Header { name: "Authorization", value: "<redacted>" }"#);
    let header = Header::new("X-Quote", "a\"b").unwrap();
    assert_eq!(header.debug_repr(), r#"Header { name: "X-Quote", value: "a\"b" }"#);
    let request = HttpRequest::json("https://x", "é")
        .unwrap()
        .with_header("proxy-AUTHORIZATION", "p")
        .unwrap()
        .with_header("Set-Cookie", "s")
        .unwrap();
    assert_eq!(
        request.debug_repr(),
        [
            r#"HttpRequest { method: Post, url: "https://x", headers: ["#,
            r#"Header { name: "Accept", value: "application/json, text/plain, */*" }, "#,
            r#"Header { name: "Content-Type", value: "application/json" }, "#,
            r#"Header { name: "proxy-AUTHORIZATION", value: "<redacted>" }, "#,
            r#"Header { name: "Set-Cookie", value: "<redacted>" }], body_bytes: Some(2) }"#,
        ]
        .concat()
    );
    let request = HttpRequest::get("https://x").unwrap();
    assert!(request.debug_repr().ends_with("], body_bytes: None }"));
    let session = Session::from_cookie_header("session=value").unwrap();
    assert_eq!(session.debug_repr(), r#"Session { cookie_header: "<redacted>" }"#);
}

#[test]
fn error_messages() {
    assert_eq!(Error::EmptyArgument("locale").message(), "locale must not be empty");
    assert_eq!(Error::EmptyBaseUrl.message(), "base url must not be empty");
    assert_eq!(Error::EmptyCookieHeader.message(), "cookie header must not be empty");
    assert_eq!(Error::EmptyHeaderName.message(), "header name must not be empty");
    assert_eq!(Error::EmptyReferenceValue.message(), "reference value must not be empty");
    assert_eq!(Error::EmptyUrl.message(), "url must not be empty");
    assert_eq!(
        Error::InvalidCookieHeader.message(),
        "cookie header must be a single header value"
    );
    assert_eq!(Error::InvalidHeaderName.message(), "header name must not contain CR or LF");
    assert_eq!(Error::InvalidHeaderValue.message(), "header value must not contain CR or LF");
    assert_eq!(
        Error::UnexpectedResponse("x").message(),
        "unexpected Element response: x"
    );
    assert_eq!(
        Error::ZeroLimit.message(),
        "dynamic list limit must be greater than zero"
    );
}

#[test]
fn module_call_results_need_a_completed_call() {
    let response = ModuleCallResponse::from_envelope(ExitReason::Null, true);
    assert!(response.debug_exit_reason().is_none());
    assert_eq!(response.result().unwrap(), &true);
    let response = ModuleCallResponse::from_envelope(ExitReason::Text("NONE".to_string()), 5);
    assert!(response.debug_exit_reason().is_none());
    assert_eq!(response.into_result().unwrap(), 5);
    let response = ModuleCallResponse::from_envelope(ExitReason::Text("ERROR".to_string()), true);
    assert!(matches!(response.debug_exit_reason(), Some(ExitReason::Text(s)) if s == "ERROR"));
    assert!(matches!(
        response.result(),
        Err(Error::UnexpectedResponse("module call reported a non-success debugExitReason"))
    ));
    assert!(response.into_result().is_err());
    let response =
        ModuleCallResponse::from_envelope(ExitReason::Other(serde_json::Value::Bool(false)), 1);
    assert!(response.result().is_err());
}

#[test]
fn dynamic_list_rows_are_kept() {
    let row = DynamicListRow::from_field_values(vec![serde_json::Value::from("x")]);
    let response = DynamicListResponse::from_rows(vec![row]);
    assert_eq!(response.rows().len(), 1);
    assert_eq!(response.rows()[0].field_values()[0], serde_json::Value::from("x"));
    let rows = response.into_rows();
    assert_eq!(rows.into_iter().next().unwrap().into_field_values().len(), 1);
}
