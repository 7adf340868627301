use dockerino::docker::{
    build_request, check_target, decode_text, is_failure_status, registry_auth_header,
    translate_error, AuthHeader, HttpMethod,
};
use dockerino::images::{
    build_image_headers, delete_image_endpoint, export_image_endpoint, image_history_endpoint,
    import_image_endpoint, inspect_image_endpoint, push_image_endpoint, push_image_headers,
    tag_image_endpoint,
};
use dockerino::utils::{ClientError, DockerError};

fn envelope_of(body: &str) -> Result<DockerError, String> {
    match serde_json::from_str::<serde_json::Value>(body) {
        Ok(v) => match v.get("message").and_then(|m| m.as_str()) {
            Some(m) => Ok(DockerError { message: m.to_string() }),
            None => Err("missing message".to_string()),
        },
        Err(e) => Err(e.to_string()),
    }
}

#[test]
fn host_header_comes_first_and_empty() {
    let req = build_request("/var/run/docker.sock", HttpMethod::Get, "/images/json", None, None).unwrap();
    assert_eq!(req.headers, vec![("Host".to_string(), "".to_string())]);
    assert!(req.body.is_empty());
    assert_eq!(req.method, HttpMethod::Get);
    assert_eq!(req.endpoint, "/images/json");
    assert_eq!(req.socket_path, "/var/run/docker.sock");
}

#[test]
fn host_header_kept_with_caller_headers() {
    let headers = vec![
        ("Content-type".to_string(), "application/x-tar".to_string()),
        ("Host".to_string(), "example".to_string()),
    ];
    let req = build_request("/s", HttpMethod::Post, "/build?t=x", Some(vec![1, 2, 3]), Some(headers)).unwrap();
    assert_eq!(req.headers[0], ("Host".to_string(), "".to_string()));
    assert_eq!(req.headers.len(), 3);
    assert_eq!(req.headers[1].0, "Content-type");
    assert_eq!(req.headers[2], ("Host".to_string(), "example".to_string()));
    assert_eq!(req.body, vec![1, 2, 3]);
}

#[test]
fn malformed_targets_are_refused() {
    for bad in ["", "images/json", "/images/a b", "/images/\u{e9}", "/x#frag", "/x?q=\"", "/x\n"] {
        assert_eq!(
            build_request("/s", HttpMethod::Get, bad, None, None).err(),
            Some(ClientError::MalformedRequestError { endpoint: bad.to_string() })
        );
    }
    assert!(check_target("/s", "/images/{\"json\"}?a=b?c&d=%7B"));
    let long = format!("/{}", "a".repeat(65534));
    assert!(!check_target("/s", &long));
    let fits = format!("/{}", "a".repeat(65534 - 9 - 4 - 1));
    assert!(check_target("/s", &fits));
    let too_long = format!("/{}", "a".repeat(65534 - 9 - 4));
    assert!(!check_target("/s", &too_long));
}

#[test]
fn classified_failures_become_api_errors() {
    for status in [400u16, 404, 409, 500] {
        assert!(is_failure_status(status));
        let envelope = envelope_of("{\"message\": \"X\"}");
        assert_eq!(
            translate_error(status, envelope),
            ClientError::ApiError { status, message: "X".to_string() }
        );
    }
    for status in [200u16, 201, 204, 304, 401, 422, 503] {
        assert!(!is_failure_status(status));
    }
}

#[test]
fn delete_not_found_scenario() {
    let body = b"{\"message\":\"No such image: abc\"}".to_vec();
    assert!(is_failure_status(404));
    let text = decode_text(body).unwrap();
    let err = translate_error(404, envelope_of(&text));
    assert_eq!(err, ClientError::ApiError { status: 404, message: "No such image: abc".to_string() });
    assert_eq!(delete_image_endpoint("abc", true, false), "/images/abc?force=true&noprune=false");
}

#[test]
fn empty_listing_scenario() {
    assert!(!is_failure_status(200));
    let text = decode_text(b"[]".to_vec()).unwrap();
    let items: Vec<serde_json::Value> = serde_json::from_str(&text).unwrap();
    assert!(items.is_empty());
}

#[test]
fn unreadable_envelope_is_a_body_decode_error() {
    let err = translate_error(500, envelope_of("not json"));
    assert!(matches!(err, ClientError::BodyDecodeError { .. }));
    let err = translate_error(409, Err("no envelope".to_string()));
    assert_eq!(err, ClientError::BodyDecodeError { message: "no envelope".to_string() });
}

#[test]
fn body_text_must_be_utf8() {
    assert_eq!(decode_text("héllo".as_bytes().to_vec()).unwrap(), "héllo");
    assert!(matches!(decode_text(vec![0x66, 0xff, 0x6f]), Err(ClientError::BodyDecodeError { .. })));
    assert_eq!(decode_text(vec![]).unwrap(), "");
}

#[test]
fn image_endpoints() {
    assert_eq!(inspect_image_endpoint("ss"), "/images/ss/json");
    assert_eq!(image_history_endpoint("35c73078fa43"), "/images/35c73078fa43/history");
    assert_eq!(export_image_endpoint("b01b6452ecf7"), "/images/b01b6452ecf7/get");
    assert_eq!(import_image_endpoint(), "/images/load");
    assert_eq!(
        tag_image_endpoint("35c73078fa43", Some("someuser/someimage"), Some("test")),
        "/images/35c73078fa43/tag?repo=someuser/someimage&tag=test"
    );
    assert_eq!(tag_image_endpoint("x", None, None), "/images/x/tag?repo=&tag=");
    assert_eq!(
        push_image_endpoint("localhost:5000/test_push", Some("test")),
        "/images/localhost:5000/test_push/push?tag=test"
    );
    assert_eq!(push_image_endpoint("img", None), "/images/img/push");
    assert_eq!(delete_image_endpoint("c859aafa677c", false, true), "/images/c859aafa677c?force=false&noprune=true");
}

#[test]
fn registry_credentials_header() {
    let auth = AuthHeader::for_server("registry");
    assert_eq!(auth.username, "");
    assert_eq!(auth.password, "");
    assert_eq!(auth.email, "");
    assert_eq!(auth.serveraddress, "registry");
    let json = "{\"username\":\"\",\"password\":\"\",\"email\":\"\",\"serveraddress\":\"registry\"}";
    let headers = push_image_headers(json);
    assert_eq!(
        headers,
        vec![(
            "X-Registry-Auth".to_string(),
            "eyJ1c2VybmFtZSI6IiIsInBhc3N3b3JkIjoiIiwiZW1haWwiOiIiLCJzZXJ2ZXJhZGRyZXNzIjoicmVnaXN0cnkifQ==".to_string()
        )]
    );
    assert_eq!(registry_auth_header("{}").1, "e30=");
}

#[test]
fn build_headers_name_a_tarball() {
    assert_eq!(
        build_image_headers(),
        vec![("Content-type".to_string(), "application/x-tar".to_string())]
    );
}
