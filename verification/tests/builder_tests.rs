use zagent::agent::builder::{build_preamble, select_api_key};

#[test]
fn preamble_with_everything() {
    let p = build_preamble("SYS", "TODO", Some("AGENTS"), Some("PROMPT"), Some("/work"));
    assert_eq!(
        p,
        "SYS\nTODO\n\nAGENTS\n\n---\n\nPROMPT\n\nCurrent working directory: /work"
    );
}

#[test]
fn preamble_with_nothing_optional() {
    assert_eq!(build_preamble("SYS", "TODO", None, None, None), "SYS\nTODO");
}

#[test]
fn preamble_with_prompt_only() {
    assert_eq!(
        build_preamble("S", "T", None, Some("P"), None),
        "S\nT\n\n---\n\nP"
    );
}

#[test]
fn explicit_key_wins_over_environment() {
    assert_eq!(select_api_key(Some("k1"), Some("k2".to_string())), Ok("k1".to_string()));
}

#[test]
fn environment_key_when_none_given() {
    assert_eq!(select_api_key(None, Some("k2".to_string())), Ok("k2".to_string()));
}

#[test]
fn missing_key_is_refused() {
    assert_eq!(
        select_api_key(None, None),
        Err("No API key found. Set OPENROUTER_API_KEY environment variable or pass --api-key."
            .to_string())
    );
}
