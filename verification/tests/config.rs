use resp2chat::config::{
    apply_env_overrides, apply_parsed_overrides, load_persisted_config, merge_json_maps, settings_from,
    BindAddr, Config, EnvOverrides, HostAddr, PersistedConfig, PersistedModelProfile, StoredFile,
};
use resp2chat::profiles::ProfileTable;
use serde_json::{Map as JsonMap, Value};

fn map(entries: Vec<(&str, Value)>) -> JsonMap<String, Value> {
    let mut map = JsonMap::new();
    for (key, value) in entries {
        map.insert(key.to_string(), value);
    }
    map
}

fn object(entries: Vec<(&str, Value)>) -> Value {
    Value::Object(map(entries))
}

fn profiles(entries: Vec<(&str, PersistedModelProfile)>) -> ProfileTable<PersistedModelProfile> {
    let mut table = ProfileTable::new();
    for (name, profile) in entries {
        table.insert(name.to_string(), profile);
    }
    table
}

fn profile(model: Option<&str>, kwargs: Vec<(&str, Value)>) -> PersistedModelProfile {
    PersistedModelProfile {
        upstream_model: model.map(|model| model.to_string()),
        upstream_chat_kwargs: map(kwargs),
    }
}

fn bind_addr(port: u16) -> Result<BindAddr, String> {
    Ok(BindAddr { host: HostAddr::V4 { octets: [127, 0, 0, 1] }, port })
}

fn no_overrides() -> EnvOverrides {
    EnvOverrides {
        bind_addr: None,
        upstream_base_url: None,
        upstream_api_key: None,
        openai_api_key: None,
        upstream_model: None,
        upstream_chat_kwargs_json: None,
        brave_base_url: None,
        brave_api_key: None,
        brave_max_results: None,
        request_timeout_secs: None,
    }
}

fn some(text: &str) -> Option<String> {
    Some(text.to_string())
}

fn with_profiles(entries: Vec<(&str, PersistedModelProfile)>) -> Config {
    let mut stored = PersistedConfig::default();
    stored.model_profiles = profiles(entries);
    Config::from_persisted(&stored, bind_addr(4000)).expect("config")
}

#[test]
fn resolves_profile_specific_upstream_chat_kwargs() {
    // 127.0.0.1:4010
    let bind_addr = bind_addr(4010);
    let config = Config::from_persisted(&PersistedConfig {
        bind_addr: "127.0.0.1:4010".to_string(),
        upstream_base_url: "http://127.0.0.1:8000/v1".to_string(),
        upstream_api_key: None,
        upstream_model: None,
        upstream_chat_kwargs: JsonMap::new(),
        model_profiles: profiles(vec![(
            "Kimi-K2.6",
            PersistedModelProfile {
                upstream_model: None,
                upstream_chat_kwargs: map(vec![(
                    "chat_template_kwargs",
                    object(vec![
                        ("thinking", Value::Bool(true)),
                        ("preserve_thinking", Value::Bool(true)),
                    ]),
                )]),
            },
        )]),
        brave_base_url: "https://api.search.brave.com/res/v1".to_string(),
        brave_api_key: None,
        brave_max_results: 5,
        request_timeout_secs: 60,
    }, bind_addr)
    .expect("config");

    assert_eq!(
        config.resolve_upstream_model("Kimi-K2.6"),
        "Kimi-K2.6".to_string()
    );
    assert_eq!(
        config.resolve_upstream_chat_kwargs("Kimi-K2.6"),
        map(vec![(
            "chat_template_kwargs",
            object(vec![
                ("thinking", Value::Bool(true)),
                ("preserve_thinking", Value::Bool(true)),
            ]),
        )])
    );
}

#[test]
fn merges_nested_profile_chat_kwargs() {
    let mut destination = map(vec![
        (
            "chat_template_kwargs",
            object(vec![
                ("enable_thinking", Value::Bool(true)),
                ("clear_thinking", Value::Bool(false)),
            ]),
        ),
        ("stream_reasoning", Value::Bool(true)),
    ]);
    let source = map(vec![(
        "chat_template_kwargs",
        object(vec![
            ("thinking", Value::Bool(true)),
            ("preserve_thinking", Value::Bool(true)),
        ]),
    )]);

    merge_json_maps(&mut destination, &source);

    assert_eq!(
        destination,
        map(vec![
            (
                "chat_template_kwargs",
                object(vec![
                    ("enable_thinking", Value::Bool(true)),
                    ("clear_thinking", Value::Bool(false)),
                    ("thinking", Value::Bool(true)),
                    ("preserve_thinking", Value::Bool(true)),
                ]),
            ),
            ("stream_reasoning", Value::Bool(true)),
        ])
    );
}

#[test]
fn merging_replaces_what_is_no_object_on_both_sides() {
    let mut destination = map(vec![
        ("a", object(vec![("x", Value::from(1))])),
        ("b", Value::from(1)),
        ("c", Value::Array(vec![Value::from(1)])),
        ("d", Value::from("kept")),
    ]);
    let source = map(vec![
        ("a", Value::Null),
        ("b", object(vec![("y", Value::from(2))])),
        ("c", Value::Array(vec![Value::from(2)])),
        ("e", Value::from("new")),
    ]);
    merge_json_maps(&mut destination, &source);
    let merged = map(vec![
        ("a", Value::Null),
        ("b", object(vec![("y", Value::from(2))])),
        ("c", Value::Array(vec![Value::from(2)])),
        ("d", Value::from("kept")),
        ("e", Value::from("new")),
    ]);
    assert_eq!(destination, merged);
    merge_json_maps(&mut destination, &source);
    assert_eq!(destination, merged);
    merge_json_maps(&mut destination, &JsonMap::new());
    assert_eq!(destination, merged);
    let mut empty = JsonMap::new();
    merge_json_maps(&mut empty, &source);
    assert_eq!(empty, source);
}

#[test]
fn merging_goes_deep() {
    let leaf = |key: &str, n: i64| object(vec![(key, Value::from(n))]);
    let mut destination = map(vec![("a", object(vec![("b", leaf("x", 1)), ("c", leaf("z", 3))]))]);
    let source = map(vec![("a", object(vec![("b", leaf("y", 2)), ("c", Value::Bool(false))]))]);
    merge_json_maps(&mut destination, &source);
    assert_eq!(
        destination,
        map(vec![(
            "a",
            object(vec![
                ("b", object(vec![("x", Value::from(1)), ("y", Value::from(2))])),
                ("c", Value::Bool(false)),
            ])
        )])
    );
}

#[test]
fn the_defaults_are_usable() {
    let stored = PersistedConfig::default();
    assert_eq!(stored.bind_addr, "127.0.0.1:4000");
    assert_eq!(stored.upstream_base_url, "http://127.0.0.1:8000/v1");
    assert_eq!(stored.upstream_api_key, None);
    assert_eq!(stored.upstream_model, None);
    assert!(stored.upstream_chat_kwargs.is_empty());
    assert_eq!(stored.model_profiles.len(), 0);
    assert_eq!(stored.brave_base_url, "https://api.search.brave.com/res/v1");
    assert_eq!(stored.brave_api_key, None);
    assert_eq!(stored.brave_max_results, 5);
    assert_eq!(stored.request_timeout_secs, 60);
    let config = Config::from_persisted(&stored, bind_addr(4000)).expect("config");
    assert_eq!(config.bind_addr, bind_addr(4000).unwrap());
    assert_eq!(config.upstream_base_url, "http://127.0.0.1:8000/v1");
    assert_eq!(config.brave_base_url, "https://api.search.brave.com/res/v1");
    assert_eq!(config.brave_max_results, 5);
    assert_eq!(config.request_timeout_secs, 60);
    let empty = PersistedModelProfile::default();
    assert_eq!(empty.upstream_model, None);
    assert!(empty.upstream_chat_kwargs.is_empty());
}

#[test]
fn urls_are_brought_to_their_normal_form() {
    let mut stored = PersistedConfig::default();
    stored.upstream_base_url = " HTTP://Example.COM:80/a/../v1 ".to_string();
    stored.brave_base_url = "https://example.com".to_string();
    let config = Config::from_persisted(&stored, bind_addr(1)).expect("config");
    assert_eq!(config.upstream_base_url, "http://example.com/v1");
    assert_eq!(config.brave_base_url, "https://example.com/");
}

#[test]
fn unreadable_addresses_are_refused_in_turn() {
    let mut stored = PersistedConfig::default();
    stored.upstream_base_url = "no url".to_string();
    stored.brave_base_url = "http://".to_string();
    let refused = |stored: &PersistedConfig, addr: Result<BindAddr, String>| {
        match Config::from_persisted(stored, addr) {
            Ok(config) => panic!("unexpected {:?}", config),
            Err(message) => message,
        }
    };
    assert_eq!(
        refused(&stored, Err("invalid socket address syntax".to_string())),
        "invalid bind_addr: invalid socket address syntax"
    );
    assert_eq!(
        refused(&stored, bind_addr(1)),
        "invalid upstream_base_url: relative URL without a base"
    );
    stored.upstream_base_url = "http://localhost".to_string();
    assert_eq!(refused(&stored, bind_addr(1)), "invalid brave_base_url: empty host");
}

#[test]
fn parsed_addresses_decide() {
    let stored = PersistedConfig::default();
    let config = Config::from_parsed(
        &stored,
        bind_addr(9),
        Ok("up".to_string()),
        Ok("brave".to_string()),
    )
    .expect("config");
    assert_eq!(config.upstream_base_url, "up");
    assert_eq!(config.brave_base_url, "brave");
    let refused =
        Config::from_parsed(&stored, bind_addr(9), Ok("up".to_string()), Err("why".to_string()));
    assert_eq!(refused.err(), some("invalid brave_base_url: why"));
}

#[test]
fn blank_settings_are_absent_and_others_are_trimmed() {
    let mut stored = PersistedConfig::default();
    stored.upstream_api_key = some("  key\n");
    stored.upstream_model = some(" \t ");
    stored.brave_api_key = some("");
    stored.upstream_chat_kwargs = map(vec![("a", Value::from(1))]);
    stored.model_profiles = profiles(vec![
        ("  ", profile(some("blank").as_deref(), vec![])),
        (" m ", profile(Some(" x "), vec![])),
        ("n", profile(Some("  "), vec![("k", Value::from("v"))])),
    ]);
    let config = Config::from_persisted(&stored, bind_addr(1)).expect("config");
    assert_eq!(config.upstream_api_key, some("key"));
    assert_eq!(config.upstream_model, None);
    assert_eq!(config.brave_api_key, None);
    assert_eq!(config.upstream_chat_kwargs, stored.upstream_chat_kwargs);
    assert_eq!(config.model_profiles.len(), 2);
    assert_eq!(config.model_profiles.get("m").unwrap().upstream_model, some("x"));
    let n = config.model_profiles.get("n").unwrap();
    assert_eq!(n.upstream_model, None);
    assert_eq!(n.upstream_chat_kwargs, map(vec![("k", Value::from("v"))]));
}

#[test]
fn the_last_spelling_of_a_name_stays() {
    let config = with_profiles(vec![
        ("a ", profile(Some("third"), vec![])),
        (" a", profile(Some("first"), vec![])),
        ("a", profile(Some("second"), vec![])),
    ]);
    assert_eq!(config.model_profiles.len(), 1);
    assert_eq!(config.model_profiles.get("a").unwrap().upstream_model, some("third"));
}

#[test]
fn the_upstream_model_is_resolved_in_turn() {
    let mut config = with_profiles(vec![
        ("a", profile(Some("of-profile"), vec![])),
        ("b", profile(None, vec![])),
        ("*", profile(Some("of-fallback"), vec![])),
    ]);
    assert_eq!(config.resolve_upstream_model("a"), "of-profile");
    assert_eq!(config.resolve_upstream_model("A"), "of-profile");
    assert_eq!(config.resolve_upstream_model("b"), "b");
    assert_eq!(config.resolve_upstream_model("c"), "c");
    config.upstream_model = some("of-settings");
    assert_eq!(config.resolve_upstream_model("a"), "of-profile");
    assert_eq!(config.resolve_upstream_model("b"), "of-settings");
    assert_eq!(config.resolve_upstream_model("c"), "of-settings");
}

#[test]
fn an_explicit_profile_leaves_the_fallback_out() {
    let thinking = |on: bool| {
        vec![("chat_template_kwargs", object(vec![("enable_thinking", Value::Bool(on))]))]
    };
    let mut config = with_profiles(vec![
        ("*", profile(None, thinking(true))),
        ("GLM-5.2", profile(None, thinking(false))),
        ("bare", profile(None, vec![])),
    ]);
    assert_eq!(config.resolve_upstream_chat_kwargs("GLM-5.2"), map(thinking(false)));
    assert_eq!(config.resolve_upstream_chat_kwargs("glm-5.2"), map(thinking(false)));
    assert_eq!(config.resolve_upstream_chat_kwargs("bare"), JsonMap::new());
    assert_eq!(config.resolve_upstream_chat_kwargs("Qwen-3"), map(thinking(true)));
    config.upstream_model = some("GLM-5.2");
    assert_eq!(config.resolve_upstream_chat_kwargs("Qwen-3"), map(thinking(false)));
    assert_eq!(config.resolve_upstream_chat_kwargs("bare"), JsonMap::new());
}

#[test]
fn profile_arguments_go_before_those_of_the_settings() {
    let mut stored = PersistedConfig::default();
    stored.upstream_chat_kwargs = map(vec![
        ("a", Value::from(1)),
        ("b", Value::from(1)),
        ("o", object(vec![("x", Value::from(1))])),
    ]);
    stored.model_profiles = profiles(vec![(
        "m",
        profile(None, vec![("b", Value::from(2)), ("o", object(vec![("y", Value::from(2))]))]),
    )]);
    let config = Config::from_persisted(&stored, bind_addr(1)).expect("config");
    assert_eq!(
        config.resolve_upstream_chat_kwargs("m"),
        map(vec![
            ("a", Value::from(1)),
            ("b", Value::from(2)),
            ("o", object(vec![("x", Value::from(1)), ("y", Value::from(2))])),
        ])
    );
    assert_eq!(config.resolve_upstream_chat_kwargs("other"), stored.upstream_chat_kwargs);
    assert_eq!(config.upstream_chat_kwargs, stored.upstream_chat_kwargs);
}

#[test]
fn set_variables_override_stored_settings() {
    let mut stored = PersistedConfig::default();
    let env = EnvOverrides {
        bind_addr: some(" 0.0.0.0:1 "),
        upstream_base_url: some("http://up"),
        upstream_api_key: some("key"),
        openai_api_key: some("openai"),
        upstream_model: some("model"),
        upstream_chat_kwargs_json: some(" {\"a\": {\"b\": [1, null]}} "),
        brave_base_url: some("http://brave"),
        brave_api_key: some("brave-key"),
        brave_max_results: some("+7"),
        request_timeout_secs: some("45"),
    };
    apply_env_overrides(&mut stored, &env);
    let expected = PersistedConfig {
        bind_addr: " 0.0.0.0:1 ".to_string(),
        upstream_base_url: "http://up".to_string(),
        upstream_api_key: some("key"),
        upstream_model: some("model"),
        upstream_chat_kwargs: map(vec![(
            "a",
            object(vec![("b", Value::Array(vec![Value::from(1), Value::Null]))]),
        )]),
        model_profiles: ProfileTable::new(),
        brave_base_url: "http://brave".to_string(),
        brave_api_key: some("brave-key"),
        brave_max_results: 7,
        request_timeout_secs: 45,
    };
    assert_eq!(stored, expected);
    apply_env_overrides(&mut stored, &env);
    assert_eq!(stored, expected);
}

#[test]
fn blank_or_unreadable_variables_change_nothing() {
    let mut stored = PersistedConfig::default();
    stored.upstream_chat_kwargs = map(vec![("a", Value::from(1))]);
    stored.model_profiles = profiles(vec![("m", profile(Some("x"), vec![]))]);
    let before = stored.clone();
    apply_env_overrides(&mut stored, &no_overrides());
    assert_eq!(stored, before);
    let blank = EnvOverrides {
        bind_addr: some(""),
        upstream_base_url: some(" "),
        upstream_api_key: some("\t"),
        openai_api_key: some("\n"),
        upstream_model: some(" "),
        upstream_chat_kwargs_json: some("[1]"),
        brave_base_url: some(""),
        brave_api_key: some("  "),
        brave_max_results: some(" 7"),
        request_timeout_secs: some("18446744073709551616"),
    };
    apply_env_overrides(&mut stored, &blank);
    assert_eq!(stored, before);
    let mut null = no_overrides();
    null.upstream_chat_kwargs_json = some("null");
    apply_env_overrides(&mut stored, &null);
    assert_eq!(stored, before);
    let mut broken = no_overrides();
    broken.upstream_chat_kwargs_json = some("{\"a\": ");
    apply_env_overrides(&mut stored, &broken);
    assert_eq!(stored, before);
}

#[test]
fn parsed_arguments_replace_the_stored_ones() {
    let mut stored = PersistedConfig::default();
    stored.upstream_chat_kwargs = map(vec![("a", Value::from(1))]);
    apply_parsed_overrides(&mut stored, &no_overrides(), Some(map(vec![("b", Value::from(2))])));
    assert_eq!(stored.upstream_chat_kwargs, map(vec![("b", Value::from(2))]));
    apply_parsed_overrides(&mut stored, &no_overrides(), None);
    assert_eq!(stored.upstream_chat_kwargs, map(vec![("b", Value::from(2))]));
}

#[test]
fn the_openai_key_is_a_fallback() {
    let mut env = no_overrides();
    env.openai_api_key = some("openai");
    let mut stored = PersistedConfig::default();
    apply_env_overrides(&mut stored, &env);
    assert_eq!(stored.upstream_api_key, some("openai"));
    stored.upstream_api_key = some("stored");
    apply_env_overrides(&mut stored, &env);
    assert_eq!(stored.upstream_api_key, some("stored"));
    env.upstream_api_key = some("variable");
    apply_env_overrides(&mut stored, &env);
    assert_eq!(stored.upstream_api_key, some("variable"));
}

#[test]
fn a_missing_file_leaves_the_defaults() {
    let path = "/etc/config.yaml";
    assert_eq!(
        load_persisted_config(path, StoredFile::Missing),
        Ok(PersistedConfig::default())
    );
    let mut config = PersistedConfig::default();
    config.brave_max_results = 1;
    assert_eq!(
        load_persisted_config(path, StoredFile::Settings { config: config.clone() }),
        Ok(config)
    );
    assert_eq!(
        load_persisted_config(path, StoredFile::Unreadable { reason: "denied".to_string() }),
        Err("failed to read /etc/config.yaml: denied".to_string())
    );
    assert_eq!(
        load_persisted_config(path, StoredFile::Malformed { reason: "line 1".to_string() }),
        Err("failed to parse /etc/config.yaml: line 1".to_string())
    );
}

#[test]
fn used_settings_can_be_cloned() {
    let config = with_profiles(vec![("m", profile(Some("x"), vec![]))]);
    let copy = config.clone();
    assert_eq!(copy.resolve_upstream_model("m"), "x");
    assert_eq!(copy.upstream_base_url, config.upstream_base_url);
}

#[test]
fn the_environment_goes_before_the_file() {
    let path = "/etc/config.yaml";
    let mut env = no_overrides();
    env.upstream_model = some("of-env");
    env.brave_max_results = some("9");
    let mut config = PersistedConfig::default();
    config.upstream_model = some("of-file");
    config.brave_api_key = some("key");
    let settings =
        settings_from(path, StoredFile::Settings { config: config.clone() }, &env).expect("settings");
    config.upstream_model = some("of-env");
    config.brave_max_results = 9;
    assert_eq!(settings, config);
    let defaults = settings_from(path, StoredFile::Missing, &env).expect("settings");
    assert_eq!(defaults.upstream_model, some("of-env"));
    assert_eq!(defaults.bind_addr, "127.0.0.1:4000");
}

#[test]
fn a_file_error_comes_before_the_environment() {
    let path = "/etc/config.yaml";
    let mut env = no_overrides();
    env.bind_addr = some("0.0.0.0:1");
    assert_eq!(
        settings_from(path, StoredFile::Unreadable { reason: "denied".to_string() }, &env),
        Err("failed to read /etc/config.yaml: denied".to_string())
    );
    assert_eq!(
        settings_from(path, StoredFile::Malformed { reason: "line 1".to_string() }, &env),
        Err("failed to parse /etc/config.yaml: line 1".to_string())
    );
}
