use streams::nominal::{
    build_stream, check_stream, default_url, judge_env, url_or_default, EnvConfig, NominalApi, StreamOptions,
};

fn some(text: &str) -> Option<String> {
    Some(text.to_string())
}

fn env(token: &str, dataset: &str, base_url: &str) -> EnvConfig {
    EnvConfig {
        token: token.to_string(),
        dataset: dataset.to_string(),
        base_url: base_url.to_string(),
    }
}

/// The error for settings, or nothing.
fn check_env(env: &EnvConfig) -> Result<(), String> {
    match NominalApi::new(env) {
        Ok(api) => {
            assert_eq!(api.token, env.token);
            assert_eq!(api.dataset_rid, env.dataset);
            assert_eq!(api.base_url, env.base_url);
            Ok(())
        }
        Err(text) => Err(text),
    }
}

const RID: &str = "ri.catalog.cerulean-staging.dataset.0a1B_2-3.x";
const URL: &str = "https://api.gov.nominal.io/api";

#[test]
fn settings_come_from_the_environment() {
    let e = EnvConfig::from_env(some("t"), some("d"), some("u")).unwrap();
    assert_eq!((e.token.as_str(), e.dataset.as_str(), e.base_url.as_str()), ("t", "d", "u"));
}

#[test]
fn the_first_missing_variable_is_named() {
    assert_eq!(
        EnvConfig::from_env(None, None, None).unwrap_err(),
        "missing env var NOMINAL_TOKEN (set it in .env)"
    );
    assert_eq!(
        EnvConfig::from_env(some("t"), None, None).unwrap_err(),
        "missing env var NOMINAL_DATASET (set it in .env)"
    );
    assert_eq!(
        EnvConfig::from_env(some("t"), some("d"), None).unwrap_err(),
        "missing env var NOMINAL_URL (set it in .env)"
    );
}

#[test]
fn usable_settings_are_accepted() {
    assert_eq!(check_env(&env("abc.DEF-123_~+/==", RID, URL)), Ok(()));
    assert_eq!(check_env(&env("x", "ri.a..b.c", "http://localhost:8080")), Ok(()));
}

#[test]
fn tokens_are_checked() {
    for token in ["", "=", "==", "a b", "a=b", "tökén", "a\n"] {
        assert_eq!(check_env(&env(token, "x", "x")), Err("invalid NOMINAL_TOKEN".to_string()), "{token}");
    }
}

#[test]
fn identifiers_are_checked() {
    for rid in [
        "",
        "ri",
        "ri.a.b.c",
        "ri.A.b.c.d",
        "ri.1a.b.c.d",
        "ri.a.-b.c.d",
        "ri.a.b..d",
        "ri.a.b.c.",
        "ri.a.b.c.d e",
        "xi.a.b.c.d",
        "ri.a.b.c.d\n",
    ] {
        assert_eq!(
            check_env(&env("t", rid, "x")),
            Err(format!("NOMINAL_DATASET is not a valid rid: {rid}")),
        );
    }
    for rid in ["ri.a.b.c.d", "ri.a-1.0-x.c9.D_.-..", "ri.a..c.0"] {
        assert_eq!(check_env(&env("t", rid, URL)), Ok(()), "{rid}");
    }
}

#[test]
fn addresses_are_checked() {
    for url in ["", "x", "/relative", "http://"] {
        assert_eq!(check_env(&env("t", RID, url)), Err("invalid NOMINAL_URL".to_string()), "{url}");
    }
}

#[test]
fn faults_are_judged_in_order() {
    assert_eq!(judge_env(true, true, true, "d"), Ok(()));
    assert_eq!(judge_env(false, false, false, "d"), Err("invalid NOMINAL_TOKEN".to_string()));
    assert_eq!(
        judge_env(true, false, false, "d"),
        Err("NOMINAL_DATASET is not a valid rid: d".to_string())
    );
    assert_eq!(judge_env(true, true, false, "d"), Err("invalid NOMINAL_URL".to_string()));
}

#[test]
fn the_address_has_a_default() {
    assert_eq!(default_url(), URL);
    assert_eq!(url_or_default(None), URL);
    assert_eq!(url_or_default(some("http://x")), "http://x");
}

#[test]
fn streams_are_set_up_by_their_use() {
    let plain = StreamOptions::plain(some("u"), some("f"));
    assert_eq!((plain.base_api_url, plain.file_fallback), (some("u"), some("f")));
    assert_eq!((plain.max_buffered_requests, plain.request_dispatcher_tasks), (None, None));
    let ordered = StreamOptions::in_order(None);
    assert_eq!(ordered.base_api_url, None);
    assert_eq!((ordered.max_buffered_requests, ordered.request_dispatcher_tasks), (Some(1), Some(1)));
    let fleet = StreamOptions::fleet("u".to_string());
    assert_eq!(fleet.base_api_url, some("u"));
    assert_eq!((fleet.max_request_delay_ms, fleet.max_buffered_requests), (Some(250), Some(16)));
    assert_eq!(fleet.request_dispatcher_tasks, None);
}

#[test]
fn streams_need_a_token_and_a_dataset() {
    assert_eq!(check_stream("abc==", RID), Ok(()));
    assert_eq!(check_stream("", "none"), Err("invalid token".to_string()));
    assert_eq!(check_stream("a b", RID), Err("invalid token".to_string()));
    assert_eq!(check_stream("abc", "none"), Err("invalid dataset RID".to_string()));
}

#[test]
fn fleets_need_a_token_and_a_dataset() {
    let env = |token: &str, dataset: &str| EnvConfig {
        token: token.to_string(),
        dataset: dataset.to_string(),
        base_url: "u".to_string(),
    };
    let options = build_stream(&env("abc", RID)).unwrap();
    assert_eq!(options.base_api_url, some("u"));
    assert_eq!((options.max_request_delay_ms, options.max_buffered_requests), (Some(250), Some(16)));
    let refused = |token, dataset| build_stream(&env(token, dataset)).err();
    assert_eq!(refused("", "none"), some("invalid NOMINAL_TOKEN"));
    assert_eq!(refused("abc", "none"), some("NOMINAL_DATASET is not a valid rid"));
}
