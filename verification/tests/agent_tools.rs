use book_studio::agent_tools::{
    default_keys, get, has_tool, normalize_keys, CHAPTER_SPLIT, HISTORY_CONTEXT,
};

#[test]
fn normalizes_to_registered_order_and_drops_unknown_keys() {
    let keys = normalize_keys(&vec![
        CHAPTER_SPLIT.to_string(),
        "unknown".to_string(),
        HISTORY_CONTEXT.to_string(),
        HISTORY_CONTEXT.to_string(),
    ]);
    assert_eq!(
        keys,
        vec![HISTORY_CONTEXT.to_string(), CHAPTER_SPLIT.to_string()]
    );
}

#[test]
fn empty_allowlist_is_a_real_disable_state() {
    assert!(!has_tool(&[], HISTORY_CONTEXT));
    assert!(normalize_keys(&[]).is_empty());
}

#[test]
fn normalizing_keys_twice_changes_nothing() {
    let once = normalize_keys(&vec![
        format!(" {} ", CHAPTER_SPLIT),
        HISTORY_CONTEXT.to_string(),
    ]);
    assert_eq!(normalize_keys(&once), once);
}

#[test]
fn default_keys_leave_out_the_history_context_tool() {
    let keys = default_keys();
    assert!(!keys.contains(&HISTORY_CONTEXT.to_string()));
    assert!(!keys.is_empty());
    assert_eq!(get(CHAPTER_SPLIT).unwrap().key, CHAPTER_SPLIT);
    assert!(get("unknown").is_none());
}

#[test]
fn normalizing_nothing_gives_nothing() {
    assert!(normalize_keys(&[]).is_empty());
}

#[test]
fn normalizing_twice_changes_nothing() {
    let keys = vec![
        " web_search ".to_string(),
        "unknown".to_string(),
        HISTORY_CONTEXT.to_string(),
        CHAPTER_SPLIT.to_string(),
        "web_search".to_string(),
    ];
    let once = normalize_keys(&keys);
    assert_eq!(
        once,
        vec![HISTORY_CONTEXT.to_string(), CHAPTER_SPLIT.to_string(), "web_search".to_string()]
    );
    assert_eq!(normalize_keys(&once), once);
}
