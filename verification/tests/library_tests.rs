use std::collections::HashMap;

use chrono::NaiveDateTime;
use yapi::cli::{EnvVarUpdateArgs, ReqUpdateArgs, WorkUpdateArgs};
use yapi::commands::{
    check_new_name, description_or_empty, method_or_get, choose_environment, collection_name, display_value, parse_header_arg, parse_query_arg,
    request_update, sole_collection, split_once, variable_update, workspace_name,
    workspace_update, EnvChoice,
};
use yapi::conf::{
    config_path, config_path_with, default_db_path, default_db_path_with, get_value, join_path,
    parse_config_key, parse_u32, set_value, AppConfig, ConfigKey, ConfigValueError,
    DefaultsConfig, Env, FixedEnv,
};
use yapi::db::NotFoundError;
use yapi::dtypes::{parse_method, Collection, Method, StoredRequest, Variable, Workspace};
use yapi::http::{response_body, run_record, BuildRequestError, ResponseSummary, MAX_HEADERS};
use yapi::vars::{
    build_var_map, fill, resolve_request, space_char, word_char, ResolvedRequest, VarMap,
};

fn vars(pairs: &[(&str, &str)]) -> VarMap {
    let mut m = VarMap::new();
    for (k, v) in pairs {
        m.insert(k.to_string(), v.to_string());
    }
    m
}

fn variable(name: &str, value: &str, is_secret: bool) -> Variable {
    Variable {
        id: 1,
        name: name.to_string(),
        description: "d".to_string(),
        value: value.to_string(),
        is_secret,
        created_at: NaiveDateTime::default(),
        updated_at: NaiveDateTime::default(),
    }
}

fn collection(name: &str, default_env: Option<i64>) -> Collection {
    Collection {
        id: 7,
        workspace_id: 1,
        name: name.to_string(),
        description: "c".to_string(),
        default_env,
        created_at: NaiveDateTime::default(),
        updated_at: NaiveDateTime::default(),
    }
}

struct FakeEnv(HashMap<String, String>);

impl Env for FakeEnv {
    fn get(&self, key: &str) -> Option<String> {
        self.0.get(key).cloned()
    }
}

// ── Methods ─────────────────────────────────────────────────────────────

#[test]
fn method_names_roundtrip() {
    let all = [
        Method::GET,
        Method::POST,
        Method::PUT,
        Method::DELETE,
        Method::HEAD,
        Method::OPTIONS,
        Method::CONNECT,
        Method::PATCH,
        Method::TRACE,
    ];
    for m in all {
        assert_eq!(parse_method(m.as_str()), Ok(m));
        assert_eq!(Method::try_from(m.as_str()), Ok(m));
    }
    assert_eq!(Method::PATCH.as_str(), "PATCH");
}

#[test]
fn method_parse_rejects_unknown_names() {
    assert_eq!(parse_method("get"), Err("unknown/unsupported method"));
    assert_eq!(Method::try_from("QUERY"), Err("unknown/unsupported method"));
    assert_eq!(parse_method(""), Err("unknown/unsupported method"));
}

// ── Filling ─────────────────────────────────────────────────────────────

#[test]
fn fill_unicode_word_names_and_spaces() {
    let v = vars(&[("naïve", "ok"), ("日本", "jp")]);
    assert_eq!(fill("{{ naïve }}", &v).unwrap(), "ok");
    assert_eq!(fill("{{\u{3000}日本\t}}", &v).unwrap(), "jp");
}

#[test]
fn fill_keeps_text_that_is_no_placeholder() {
    let v = vars(&[("a", "1")]);
    assert_eq!(fill("{{ a-b }} {a} {{a} {{{a}}}", &v).unwrap(), "{{ a-b }} {a} {{a} {1}");
    assert_eq!(fill("", &v).unwrap(), "");
}

#[test]
fn fill_value_is_not_filled_again() {
    let v = vars(&[("a", "{{ b }}"), ("b", "x")]);
    assert_eq!(fill("{{a}}", &v).unwrap(), "{{ b }}");
}

#[test]
fn fill_reports_undefined_in_order_of_first_appearance() {
    let v = vars(&[("b", "2")]);
    let err = fill("{{ c }}{{b}}{{ a }}{{c}}", &v).unwrap_err();
    assert_eq!(err.names, vec!["c", "a"]);
    assert_eq!(err.message(), "undefined variables: c, a");
}

#[test]
fn undefined_vars_message_single() {
    let err = fill("{{ x }}", &vars(&[])).unwrap_err();
    assert_eq!(err.message(), "undefined variables: x");
}

#[test]
fn var_map_insert_replaces_and_reads_back() {
    let mut m = VarMap::new();
    assert_eq!(m.len(), 0);
    m.insert("k".to_string(), "1".to_string());
    m.insert("j".to_string(), "2".to_string());
    m.insert("k".to_string(), "3".to_string());
    assert_eq!(m.len(), 2);
    assert_eq!(m.get("k").unwrap(), "3");
    assert_eq!(m.get("j").unwrap(), "2");
    assert!(m.get("x").is_none());
}

#[test]
fn build_var_map_keeps_collection_only_names() {
    let coll = vec![variable("a", "ca", false), variable("b", "cb", false)];
    let env = vec![variable("b", "eb", false), variable("c", "ec", false)];
    let map = build_var_map(&coll, &env);
    assert_eq!(map.len(), 3);
    assert_eq!(map.get("a").unwrap(), "ca");
    assert_eq!(map.get("b").unwrap(), "eb");
    assert_eq!(map.get("c").unwrap(), "ec");
}

#[test]
fn resolve_request_reports_first_failing_field() {
    let v = vars(&[]);
    let req = StoredRequest {
        id: 0,
        coll_id: 0,
        name: String::new(),
        method: Method::DELETE,
        url: "https://x/{{ u }}".to_string(),
        body: Some("{{ b }}".to_string()),
        created_at: NaiveDateTime::default(),
        updated_at: NaiveDateTime::default(),
    };
    let err = resolve_request(&req, &[], &[], &v).err().unwrap();
    assert_eq!(err.names, vec!["u"]);
    let v = vars(&[("u", "p")]);
    let err = resolve_request(&req, &[], &[], &v).err().unwrap();
    assert_eq!(err.names, vec!["b"]);
    let v = vars(&[("u", "p"), ("b", "q")]);
    let ok = resolve_request(&req, &[], &[], &v).ok().unwrap();
    assert_eq!(ok.method, Method::DELETE);
    assert_eq!(ok.url, "https://x/p");
    assert_eq!(ok.body.as_deref(), Some("q"));
}

#[test]
fn header_json_escapes_quotes() {
    let resolved = ResolvedRequest {
        method: Method::GET,
        url: "https://example.com".to_string(),
        body: None,
        headers: vec![("X-Q".to_string(), "say \"hi\"\n".to_string())],
        query_params: vec![],
    };
    assert_eq!(
        resolved.to_header_json(),
        r#"[{"key":"X-Q","value":"say \"hi\"\n"}]"#
    );
}

#[test]
fn build_reqwest_rejects_invalid_url() {
    let resolved = ResolvedRequest {
        method: Method::GET,
        url: "not a url".to_string(),
        body: None,
        headers: vec![],
        query_params: vec![],
    };
    let client = reqwest::Client::new();
    match resolved.build_reqwest(&client) {
        Err(BuildRequestError::InvalidUrl(_)) => {}
        other => panic!("expected an invalid URL error, got {:?}", other.map(|_| ())),
    }
}

#[test]
fn build_reqwest_reports_invalid_header() {
    let resolved = ResolvedRequest {
        method: Method::GET,
        url: "https://example.com".to_string(),
        body: None,
        headers: vec![("bad header".to_string(), "v".to_string())],
        query_params: vec![],
    };
    let client = reqwest::Client::new();
    match resolved.build_reqwest(&client) {
        Err(BuildRequestError::Http(_)) => {}
        other => panic!("expected a reqwest error, got {:?}", other.map(|_| ())),
    }
}

#[test]
fn build_reqwest_reports_url_without_host() {
    let resolved = ResolvedRequest {
        method: Method::GET,
        url: "mailto:someone@example.com".to_string(),
        body: None,
        headers: vec![],
        query_params: vec![],
    };
    let client = reqwest::Client::new();
    match resolved.build_reqwest(&client) {
        Err(BuildRequestError::Http(_)) => {}
        other => panic!("expected a reqwest error, got {:?}", other.map(|_| ())),
    }
}

#[test]
fn build_reqwest_keeps_order_of_query_and_headers() {
    let resolved = ResolvedRequest {
        method: Method::DELETE,
        url: "https://example.com/a?x=0".to_string(),
        body: None,
        headers: vec![
            ("X-A".to_string(), "1".to_string()),
            ("X-A".to_string(), "2".to_string()),
        ],
        query_params: vec![
            ("b".to_string(), "two words".to_string()),
            ("a".to_string(), "1".to_string()),
        ],
    };
    let client = reqwest::Client::new();
    let req = resolved.build_reqwest(&client).unwrap().into_request();
    assert_eq!(req.method(), reqwest::Method::DELETE);
    assert_eq!(req.url().as_str(), "https://example.com/a?x=0&b=two+words&a=1");
    let values: Vec<&str> = req.headers().get_all("X-A").iter().map(|v| v.to_str().unwrap()).collect();
    assert_eq!(values, vec!["1", "2"]);
    assert!(req.body().is_none());
}

// ── Configuration paths ─────────────────────────────────────────────────

#[test]
fn config_path_prefers_xdg() {
    assert_eq!(config_path(Some("/x"), Some("/home/u")), "/x/yapi/config.toml");
    assert_eq!(config_path(None, Some("/home/u")), "/home/u/.config/yapi/config.toml");
    assert_eq!(config_path(Some("/x/"), None), "/x/yapi/config.toml");
}

#[test]
fn default_db_path_prefers_xdg() {
    assert_eq!(default_db_path(Some("/d"), Some("/h")), "/d/yapi/yapi.db");
    assert_eq!(default_db_path(None, Some("/h")), "/h/.local/share/yapi/yapi.db");
}

#[test]
fn join_path_adds_one_separator() {
    assert_eq!(join_path("a", "b"), "a/b");
    assert_eq!(join_path("a/", "b"), "a/b");
    assert_eq!(join_path("", "b"), "b");
}

#[test]
fn paths_from_env() {
    let env = FakeEnv(HashMap::from([("HOME".to_string(), "/home/u".to_string())]));
    assert_eq!(config_path_with(&env).unwrap(), "/home/u/.config/yapi/config.toml");
    assert_eq!(default_db_path_with(&env).unwrap(), "/home/u/.local/share/yapi/yapi.db");
    let env = FakeEnv(HashMap::from([
        ("HOME".to_string(), "/home/u".to_string()),
        ("XDG_CONFIG_HOME".to_string(), "/cfg".to_string()),
        ("XDG_DATA_HOME".to_string(), "/data".to_string()),
    ]));
    assert_eq!(config_path_with(&env).unwrap(), "/cfg/yapi/config.toml");
    assert_eq!(default_db_path_with(&env).unwrap(), "/data/yapi/yapi.db");
    let env = FakeEnv(HashMap::new());
    assert!(config_path_with(&env).is_none());
    assert!(default_db_path_with(&env).is_none());
}

#[test]
fn paths_from_fixed_env() {
    let mut vars = VarMap::new();
    vars.insert("HOME".to_string(), "/home/v".to_string());
    let env = FixedEnv { vars };
    assert_eq!(env.get("HOME"), Some("/home/v".to_string()));
    assert_eq!(env.get("XDG_DATA_HOME"), None);
    assert_eq!(config_path_with(&env).unwrap(), "/home/v/.config/yapi/config.toml");
    assert_eq!(default_db_path_with(&env).unwrap(), "/home/v/.local/share/yapi/yapi.db");
    let mut vars = VarMap::new();
    vars.insert("XDG_DATA_HOME".to_string(), "/d".to_string());
    let env = FixedEnv { vars };
    assert_eq!(default_db_path_with(&env).unwrap(), "/d/yapi/yapi.db");
}

#[test]
fn app_config_default_is_empty() {
    let c = AppConfig::default();
    assert!(c.database.is_none());
    assert!(c.defaults.is_none());
    assert!(c.history.is_none());
}

// ── Errors ──────────────────────────────────────────────────────────────

#[test]
fn not_found_message() {
    let e = NotFoundError { entity: "workspace", id: 9999 };
    assert_eq!(e.message(), "workspace with id 9999 not found");
    let e = NotFoundError { entity: "request", id: -5 };
    assert_eq!(e.message(), "request with id -5 not found");
    let e = NotFoundError { entity: "history", id: i64::MIN };
    assert_eq!(e.message(), format!("history with id {} not found", i64::MIN));
    let e = NotFoundError { entity: "history", id: 0 };
    assert_eq!(e.message(), "history with id 0 not found");
}

// ── Command decisions ───────────────────────────────────────────────────

#[test]
fn split_arguments() {
    assert_eq!(
        parse_header_arg("Content-Type: application/json"),
        Some(("Content-Type".to_string(), "application/json".to_string()))
    );
    assert_eq!(parse_header_arg("A: b: c"), Some(("A".to_string(), "b: c".to_string())));
    assert_eq!(parse_header_arg("NoColon"), None);
    assert_eq!(parse_query_arg("page=1"), Some(("page".to_string(), "1".to_string())));
    assert_eq!(parse_query_arg("a=b=c"), Some(("a".to_string(), "b=c".to_string())));
    assert_eq!(parse_query_arg("x"), None);
    assert_eq!(split_once("ab", "abc"), None);
    assert_eq!(split_once("abc", ""), Some((String::new(), "abc".to_string())));
}

#[test]
fn workspace_and_collection_names() {
    let none = AppConfig::default();
    assert_eq!(workspace_name(None, &none), "default");
    assert_eq!(workspace_name(Some("w"), &none), "w");
    assert_eq!(collection_name(None, &none), None);
    let conf = AppConfig {
        database: None,
        defaults: Some(DefaultsConfig {
            workspace: Some("work".to_string()),
            collection: Some("coll".to_string()),
            environment: None,
        }),
        history: None,
    };
    assert_eq!(workspace_name(None, &conf), "work");
    assert_eq!(workspace_name(Some("w"), &conf), "w");
    assert_eq!(collection_name(None, &conf), Some("coll".to_string()));
    assert_eq!(collection_name(Some("c"), &conf), Some("c".to_string()));
}

#[test]
fn sole_collection_only_when_one() {
    assert!(sole_collection(vec![]).is_none());
    assert_eq!(sole_collection(vec![collection("a", None)]).unwrap().name, "a");
    assert!(sole_collection(vec![collection("a", None), collection("b", None)]).is_none());
}

#[test]
fn environment_choice() {
    match choose_environment(Some("dev"), &collection("c", Some(3))) {
        EnvChoice::Named(n) => assert_eq!(n, "dev"),
        other => panic!("unexpected {:?}", other),
    }
    match choose_environment(None, &collection("c", Some(3))) {
        EnvChoice::ById(id) => assert_eq!(id, 3),
        other => panic!("unexpected {:?}", other),
    }
    assert!(matches!(choose_environment(None, &collection("c", None)), EnvChoice::NoEnv));
}

#[test]
fn updates_keep_unchanged_fields() {
    let req = StoredRequest {
        id: 1,
        coll_id: 1,
        name: "old-req".to_string(),
        method: Method::GET,
        url: "http://old.com".to_string(),
        body: Some("b".to_string()),
        created_at: NaiveDateTime::default(),
        updated_at: NaiveDateTime::default(),
    };
    let args = ReqUpdateArgs {
        name: "old-req".to_string(),
        collection: None,
        workspace: None,
        new_name: Some("new-req".to_string()),
        new_url: Some("http://new.com".to_string()),
        new_method: None,
        new_body: None,
    };
    let f = request_update(&args, &req);
    assert_eq!(f.name, "new-req");
    assert_eq!(f.method, "GET");
    assert_eq!(f.url, "http://new.com");
    assert_eq!(f.body.as_deref(), Some("b"));

    let ws = Workspace {
        id: 1,
        name: "old-name".to_string(),
        description: "old desc".to_string(),
        default_env: None,
        created_at: NaiveDateTime::default(),
        updated_at: NaiveDateTime::default(),
    };
    let wargs = WorkUpdateArgs {
        name: "old-name".to_string(),
        new_name: None,
        new_description: Some("new desc".to_string()),
    };
    assert_eq!(workspace_update(&wargs, &ws), ("old-name".to_string(), "new desc".to_string()));

    let var = variable("KEY", "old-val", false);
    let vargs = EnvVarUpdateArgs {
        name: "KEY".to_string(),
        env: "dev".to_string(),
        workspace: None,
        new_name: None,
        new_value: Some("new-val".to_string()),
        new_description: None,
        secret: Some(true),
    };
    let vf = variable_update(&vargs, &var);
    assert_eq!(vf.name, "KEY");
    assert_eq!(vf.value, "new-val");
    assert!(vf.is_secret);
    assert_eq!(vf.description, "d");
}

#[test]
fn secrets_are_masked() {
    assert_eq!(display_value(&variable("K", "v", true)), "********");
    assert_eq!(display_value(&variable("K", "v", false)), "v");
}

// ── Settings by key ─────────────────────────────────────────────────────

#[test]
fn config_keys_parse() {
    assert_eq!(parse_config_key("database.path"), Some(ConfigKey::DatabasePath));
    assert_eq!(parse_config_key("history.retention_days"), Some(ConfigKey::HistoryRetentionDays));
    assert_eq!(parse_config_key("defaults"), None);
}

#[test]
fn config_set_then_get() {
    let mut c = AppConfig::default();
    assert_eq!(get_value(&c, "defaults.workspace").unwrap(), None);
    set_value(&mut c, "defaults.workspace", "work").unwrap();
    set_value(&mut c, "defaults.collection", "coll").unwrap();
    set_value(&mut c, "database.path", "/tmp/x.db").unwrap();
    set_value(&mut c, "history.retention_days", "+090").unwrap();
    assert_eq!(get_value(&c, "defaults.workspace").unwrap().as_deref(), Some("work"));
    assert_eq!(get_value(&c, "defaults.collection").unwrap().as_deref(), Some("coll"));
    assert_eq!(get_value(&c, "defaults.environment").unwrap(), None);
    assert_eq!(get_value(&c, "database.path").unwrap().as_deref(), Some("/tmp/x.db"));
    assert_eq!(get_value(&c, "history.retention_days").unwrap().as_deref(), Some("90"));
    assert_eq!(c.history.as_ref().unwrap().retention_days, Some(90));
}

#[test]
fn config_errors() {
    let mut c = AppConfig::default();
    match get_value(&c, "nope") {
        Err(ConfigValueError::UnknownKey(k)) => assert_eq!(k, "nope"),
        other => panic!("unexpected {:?}", other),
    }
    match set_value(&mut c, "nope", "x") {
        Err(ConfigValueError::UnknownKey(k)) => assert_eq!(k, "nope"),
        other => panic!("unexpected {:?}", other),
    }
    match set_value(&mut c, "history.retention_days", "ten") {
        Err(ConfigValueError::InvalidNumber(v)) => assert_eq!(v, "ten"),
        other => panic!("unexpected {:?}", other),
    }
    assert!(c.history.is_none());
}

#[test]
fn u32_parsing() {
    assert_eq!(parse_u32("0"), Some(0));
    assert_eq!(parse_u32("+7"), Some(7));
    assert_eq!(parse_u32("4294967295"), Some(u32::MAX));
    assert_eq!(parse_u32("4294967296"), None);
    assert_eq!(parse_u32("99999999999999999999"), None);
    assert_eq!(parse_u32(""), None);
    assert_eq!(parse_u32("+"), None);
    assert_eq!(parse_u32("-1"), None);
    assert_eq!(parse_u32("1a"), None);
    for s in ["0", "+7", "4294967295", "4294967296", "", "+", "-1", "1a", "007"] {
        assert_eq!(parse_u32(s), s.parse::<u32>().ok(), "{s}");
    }
}

#[test]
fn character_classes_match_regex() {
    let word = regex::Regex::new(r"\A\w\z").unwrap();
    let space = regex::Regex::new(r"\A\s\z").unwrap();
    for c in ['a', 'Z', '0', '_', '-', '{', '}', ' ', '\t', 'é', '日', '\u{3000}', '\u{a0}', '\u{300}', '€', '\u{200d}'] {
        let s = c.to_string();
        assert_eq!(word_char(c), word.is_match(&s), "{c:?}");
        assert_eq!(space_char(c), space.is_match(&s), "{c:?}");
    }
}

#[test]
fn initial_config_defaults() {
    let c = yapi::conf::initial_config("/d/yapi.db");
    assert_eq!(c.database.unwrap().path.as_deref(), Some("/d/yapi.db"));
    let d = c.defaults.unwrap();
    assert_eq!(d.workspace.as_deref(), Some("default"));
    assert_eq!(d.collection.as_deref(), Some("default"));
    assert!(d.environment.is_none());
    assert!(c.history.unwrap().retention_days.is_none());
}

#[test]
fn plain_request_resolves_to_itself() {
    let req = StoredRequest {
        id: 3,
        coll_id: 1,
        name: "plain".to_string(),
        method: Method::HEAD,
        url: "https://example.com/{x}".to_string(),
        body: Some("{\"a\": {\"b\": 1}}".to_string()),
        created_at: NaiveDateTime::default(),
        updated_at: NaiveDateTime::default(),
    };
    let ok = resolve_request(&req, &[], &[], &vars(&[("x", "y")])).ok().unwrap();
    assert_eq!(ok.method, Method::HEAD);
    assert_eq!(ok.url, req.url);
    assert_eq!(ok.body, req.body);
    assert!(ok.headers.is_empty());
    assert!(ok.query_params.is_empty());
}

#[test]
fn new_names_must_not_be_empty() {
    assert_eq!(check_new_name("workspace", ""), Err("workspace name must not be empty".to_string()));
    assert_eq!(check_new_name("request", "login"), Ok(()));
}

#[test]
fn create_defaults() {
    assert_eq!(description_or_empty(None), "");
    assert_eq!(description_or_empty(Some("d")), "d");
    assert_eq!(method_or_get(None), "GET");
    assert_eq!(method_or_get(Some("POST")), "POST");
}

#[test]
fn empty_response_body_is_none() {
    assert_eq!(response_body(String::new()), None);
    assert_eq!(response_body("ok".to_string()), Some("ok".to_string()));
}

#[test]
fn header_json_escapes_control_characters() {
    let resolved = ResolvedRequest {
        method: Method::GET,
        url: "https://example.com".to_string(),
        body: None,
        headers: vec![("K\u{1}".to_string(), "a\tb\\c\u{1f}é".to_string())],
        query_params: vec![],
    };
    assert_eq!(
        resolved.to_header_json(),
        "[{\"key\":\"K\\u0001\",\"value\":\"a\\tb\\\\c\\u001fé\"}]"
    );
}

#[test]
fn build_reqwest_refuses_control_character_in_header_value() {
    let resolved = ResolvedRequest {
        method: Method::GET,
        url: "https://example.com".to_string(),
        body: None,
        headers: vec![("X-A".to_string(), "a\u{7f}b".to_string())],
        query_params: vec![],
    };
    let client = reqwest::Client::new();
    match resolved.build_reqwest(&client) {
        Err(BuildRequestError::Http(_)) => {}
        other => panic!("expected a reqwest error, got {:?}", other.map(|_| ())),
    }
}

#[test]
fn build_reqwest_takes_many_headers() {
    let headers: Vec<(String, String)> =
        (0..MAX_HEADERS).map(|i| (format!("x-h{}", i), "é ok\t".to_string())).collect();
    let resolved = ResolvedRequest {
        method: Method::GET,
        url: "https://example.com/#top".to_string(),
        body: None,
        headers,
        query_params: vec![("q".to_string(), "a b&c".to_string())],
    };
    let client = reqwest::Client::new();
    let req = resolved.build_reqwest(&client).unwrap().into_request();
    assert_eq!(req.headers().len(), MAX_HEADERS);
    assert_eq!(req.url().as_str(), "https://example.com/?q=a+b%26c#top");
}

#[test]
fn run_records() {
    let ok = run_record(Some(ResponseSummary {
        status: 201,
        headers: vec![("content-type".to_string(), "text/plain".to_string())],
        body: Some("hi".to_string()),
    }));
    assert!(ok.success);
    assert_eq!(ok.res_status, Some(201));
    assert_eq!(ok.res_body, Some("hi".to_string()));
    assert_eq!(ok.res_headers, r#"[{"key":"content-type","value":"text/plain"}]"#);
    let failed = run_record(None);
    assert!(!failed.success);
    assert_eq!(failed.res_status, None);
    assert_eq!(failed.res_body, None);
    assert_eq!(failed.res_headers, "[]");
}
