use chrono::NaiveDateTime;
use yapi::dtypes::{Method, RequestHeader, RequestQueryParam, StoredRequest, Variable};
use yapi::vars::{build_var_map, fill, resolve_request, ResolvedRequest, VarMap};

fn vars(pairs: &[(&str, &str)]) -> VarMap {
    let mut m = VarMap::new();
    for (k, v) in pairs {
        m.insert(k.to_string(), v.to_string());
    }
    m
}

fn make_variable(name: &str, value: &str) -> Variable {
    Variable {
        id: 0,
        name: name.to_string(),
        description: String::new(),
        value: value.to_string(),
        is_secret: false,
        created_at: NaiveDateTime::default(),
        updated_at: NaiveDateTime::default(),
    }
}

fn make_request(url: &str, body: Option<&str>) -> StoredRequest {
    StoredRequest {
        id: 0,
        coll_id: 0,
        name: String::new(),
        method: Method::GET,
        url: url.to_string(),
        body: body.map(|s| s.to_string()),
        created_at: NaiveDateTime::default(),
        updated_at: NaiveDateTime::default(),
    }
}

#[test]
fn basic_substitution() {
    let v = vars(&[("host", "example.com")]);
    assert_eq!(
        fill("https://{{ host }}/api", &v).unwrap(),
        "https://example.com/api"
    );
}

#[test]
fn multiple_vars() {
    let v = vars(&[("host", "example.com"), ("port", "8080")]);
    assert_eq!(
        fill("{{ host }}:{{ port }}", &v).unwrap(),
        "example.com:8080"
    );
}

#[test]
fn repeated_var() {
    let v = vars(&[("x", "hi")]);
    assert_eq!(fill("{{ x }} and {{ x }}", &v).unwrap(), "hi and hi");
}

#[test]
fn whitespace_flexibility() {
    let v = vars(&[("x", "val")]);
    assert_eq!(fill("{{x}}", &v).unwrap(), "val");
    assert_eq!(fill("{{ x }}", &v).unwrap(), "val");
    assert_eq!(fill("{{  x  }}", &v).unwrap(), "val");
}

#[test]
fn no_placeholders_passthrough() {
    let v = vars(&[]);
    assert_eq!(fill("hello world", &v).unwrap(), "hello world");
}

#[test]
fn missing_var_error() {
    let v = vars(&[]);
    let err = fill("{{ missing }}", &v).unwrap_err();
    assert_eq!(err.names, vec!["missing"]);
}

#[test]
fn multiple_missing_vars() {
    let v = vars(&[]);
    let err = fill("{{ a }} {{ b }} {{ a }}", &v).unwrap_err();
    assert_eq!(err.names, vec!["a", "b"]);
}

#[test]
fn partial_missing() {
    let v = vars(&[("exists", "yes")]);
    let err = fill("{{ exists }} {{ nope }}", &v).unwrap_err();
    assert_eq!(err.names, vec!["nope"]);
}

#[test]
fn empty_braces_passthrough() {
    let v = vars(&[]);
    assert_eq!(fill("{{  }}", &v).unwrap(), "{{  }}");
}

#[test]
fn build_var_map_env_overrides_coll() {
    let coll = vec![make_variable("key", "coll_val")];
    let env = vec![make_variable("key", "env_val")];
    let map = build_var_map(&coll, &env);
    assert_eq!(map.get("key").unwrap(), "env_val");
}

#[test]
fn resolve_request_fills_all_fields() {
    let v = vars(&[("host", "example.com"), ("token", "abc")]);
    let req = make_request("https://{{ host }}/api", Some(r#"{"token":"{{ token }}"}"#));
    let headers = vec![RequestHeader {
        id: 0,
        req_id: 0,
        hkey: "Authorization".to_string(),
        hval: "Bearer {{ token }}".to_string(),
        created_at: NaiveDateTime::default(),
        updated_at: NaiveDateTime::default(),
    }];
    let qps = vec![RequestQueryParam {
        id: 0,
        req_id: 0,
        qkey: "host".to_string(),
        qval: "{{ host }}".to_string(),
        created_at: NaiveDateTime::default(),
        updated_at: NaiveDateTime::default(),
    }];
    let resolved = resolve_request(&req, &headers, &qps, &v).unwrap();
    assert_eq!(resolved.url, "https://example.com/api");
    assert_eq!(resolved.body.unwrap(), r#"{"token":"abc"}"#);
    assert_eq!(
        resolved.headers[0],
        ("Authorization".to_string(), "Bearer abc".to_string())
    );
    assert_eq!(
        resolved.query_params[0],
        ("host".to_string(), "example.com".to_string())
    );
}

#[test]
fn resolve_request_none_body_stays_none() {
    let v = vars(&[("host", "example.com")]);
    let req = make_request("https://{{ host }}", None);
    let resolved = resolve_request(&req, &[], &[], &v).unwrap();
    assert!(resolved.body.is_none());
}

#[test]
fn build_reqwest_basic_get() {
    let resolved = ResolvedRequest {
        method: Method::GET,
        url: "https://example.com/api".to_string(),
        body: None,
        headers: vec![],
        query_params: vec![],
    };
    let client = reqwest::Client::new();
    let req = resolved.build_reqwest(&client).unwrap().into_request();
    assert_eq!(req.method(), reqwest::Method::GET);
    assert_eq!(req.url().as_str(), "https://example.com/api");
    assert!(req.body().is_none());
}

#[test]
fn build_reqwest_with_headers() {
    let resolved = ResolvedRequest {
        method: Method::GET,
        url: "https://example.com".to_string(),
        body: None,
        headers: vec![
            ("Authorization".to_string(), "Bearer token123".to_string()),
            ("Accept".to_string(), "application/json".to_string()),
        ],
        query_params: vec![],
    };
    let client = reqwest::Client::new();
    let req = resolved.build_reqwest(&client).unwrap().into_request();
    assert_eq!(req.headers().get("Authorization").unwrap(), "Bearer token123");
    assert_eq!(req.headers().get("Accept").unwrap(), "application/json");
}

#[test]
fn build_reqwest_with_query_params() {
    let resolved = ResolvedRequest {
        method: Method::GET,
        url: "https://example.com/search".to_string(),
        body: None,
        headers: vec![],
        query_params: vec![
            ("q".to_string(), "rust".to_string()),
            ("page".to_string(), "1".to_string()),
        ],
    };
    let client = reqwest::Client::new();
    let req = resolved.build_reqwest(&client).unwrap().into_request();
    let url = req.url().to_string();
    assert!(url.contains("q=rust"));
    assert!(url.contains("page=1"));
}

#[test]
fn build_reqwest_with_body() {
    let body = r#"{"name":"test"}"#;
    let resolved = ResolvedRequest {
        method: Method::POST,
        url: "https://example.com/users".to_string(),
        body: Some(body.to_string()),
        headers: vec![],
        query_params: vec![],
    };
    let client = reqwest::Client::new();
    let req = resolved.build_reqwest(&client).unwrap().into_request();
    assert_eq!(req.method(), reqwest::Method::POST);
    let bytes = req.body().and_then(|b| b.as_bytes()).unwrap();
    assert_eq!(bytes, body.as_bytes());
}

#[test]
fn test_to_header_json() {
    let resolved = ResolvedRequest {
        method: Method::GET,
        url: "https://example.com".to_string(),
        body: None,
        headers: vec![
            ("Content-Type".to_string(), "application/json".to_string()),
            ("Authorization".to_string(), "Bearer tok".to_string()),
        ],
        query_params: vec![],
    };
    let json = resolved.to_header_json();
    let parsed: serde_json::Value = serde_json::from_str(&json).unwrap();
    let parsed = parsed.as_array().unwrap();
    assert_eq!(parsed.len(), 2);
    assert_eq!(parsed[0]["key"], "Content-Type");
    assert_eq!(parsed[0]["value"], "application/json");
    assert_eq!(parsed[1]["key"], "Authorization");
    assert_eq!(parsed[1]["value"], "Bearer tok");
}

#[test]
fn test_to_header_json_empty() {
    let resolved = ResolvedRequest {
        method: Method::GET,
        url: "https://example.com".to_string(),
        body: None,
        headers: vec![],
        query_params: vec![],
    };
    assert_eq!(resolved.to_header_json(), "[]");
}

#[test]
fn build_reqwest_full_request() {
    let resolved = ResolvedRequest {
        method: Method::PUT,
        url: "https://example.com/items/42".to_string(),
        body: Some(r#"{"status":"done"}"#.to_string()),
        headers: vec![
            ("Content-Type".to_string(), "application/json".to_string()),
        ],
        query_params: vec![
            ("v".to_string(), "2".to_string()),
        ],
    };
    let client = reqwest::Client::new();
    let req = resolved.build_reqwest(&client).unwrap().into_request();
    assert_eq!(req.method(), reqwest::Method::PUT);
    assert!(req.url().as_str().contains("v=2"));
    assert_eq!(req.headers().get("Content-Type").unwrap(), "application/json");
    let bytes = req.body().and_then(|b| b.as_bytes()).unwrap();
    assert_eq!(bytes, r#"{"status":"done"}"#.as_bytes());
}
